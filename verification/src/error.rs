//! Configuration faults that end a run.

use vstd::prelude::*;
use vstd::string::StringExecFns;

verus! {

/// A fault in the configuration. It is fatal: the run stops where it is
/// found, and what was recorded before stays recorded.
#[derive(Clone, Debug, PartialEq, Eq)]
pub enum ConfigError {
    /// The strategy selector is none of `all`, `gj`, `em`.
    UnknownStrategy(String),
    /// No benchmark is registered under this name.
    UnknownBenchmark(String),
}

impl ConfigError {
    /// The text that the fault was found in.
    pub open spec fn subject(self) -> Seq<char> {
        match self {
            ConfigError::UnknownStrategy(s) => s@,
            ConfigError::UnknownBenchmark(s) => s@,
        }
    }

    /// What to tell the user.
    pub open spec fn spec_message(self) -> Seq<char> {
        match self {
            ConfigError::UnknownStrategy(_) => "strategy should be one of all, gj, or em"@,
            ConfigError::UnknownBenchmark(s) => "unknown benchmark: "@ + s@,
        }
    }

    /// What to tell the user.
    pub fn message(&self) -> (text: String)
        ensures
            text@ == self.spec_message(),
    {
        match self {
            ConfigError::UnknownStrategy(_) => String::from_str(
                "strategy should be one of all, gj, or em",
            ),
            ConfigError::UnknownBenchmark(name) => {
                let mut text = String::from_str("unknown benchmark: ");
                text.append(name.as_str());
                text
            },
        }
    }
}

} // verus!
