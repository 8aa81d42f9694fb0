//! The names of the strategies, how they are written and how they are read.

use vstd::prelude::*;
use vstd::string::*;
use crate::performance::metrics::PerformanceMetrics;
use crate::utils::{ascii_lower, equals_ignoring_ascii_case};

verus! {

/// A way of picking the worker host for the next request. Strategies that
/// go by measurements read them from `metrics`.
pub trait Strategy {
    fn get_worker(&mut self, metrics: &PerformanceMetrics) -> Option<String>;
}

/// The strategies a load balancer can switch between.
#[derive(Debug, PartialEq, Eq, Structural, Hash, Clone, Copy)]
pub enum StrategyNames {
    RoundRobin,
    FastestServer,
    Random,
    FewestConnections,
}

/// A text that names no strategy.
#[derive(Debug, PartialEq, Eq, Structural, Clone, Copy)]
pub struct UnknownStrategy;

impl StrategyNames {
    /// How a strategy is written: the name of its variant.
    pub open spec fn written(self) -> Seq<char> {
        match self {
            StrategyNames::RoundRobin => "RoundRobin"@,
            StrategyNames::FastestServer => "FastestServer"@,
            StrategyNames::Random => "Random"@,
            StrategyNames::FewestConnections => "FewestConnections"@,
        }
    }

    /// The name of a strategy with its letters in lower case.
    pub open spec fn written_lower(self) -> Seq<char> {
        match self {
            StrategyNames::RoundRobin => "roundrobin"@,
            StrategyNames::FastestServer => "fastestserver"@,
            StrategyNames::Random => "random"@,
            StrategyNames::FewestConnections => "fewestconnections"@,
        }
    }

    /// The strategy a text names: the one whose name equals the text when
    /// the case of ASCII letters is ignored.
    pub open spec fn read(text: Seq<char>) -> Option<StrategyNames> {
        let lower = ascii_lower(text);
        if lower == StrategyNames::RoundRobin.written_lower() {
            Some(StrategyNames::RoundRobin)
        } else if lower == StrategyNames::FastestServer.written_lower() {
            Some(StrategyNames::FastestServer)
        } else if lower == StrategyNames::Random.written_lower() {
            Some(StrategyNames::Random)
        } else if lower == StrategyNames::FewestConnections.written_lower() {
            Some(StrategyNames::FewestConnections)
        } else {
            None
        }
    }

    /// The name of the strategy, as it is shown to users.
    pub fn to_string(&self) -> (s: String)
        ensures
            s@ == self.written(),
    {
        match self {
            StrategyNames::RoundRobin => String::from_str("RoundRobin"),
            StrategyNames::FastestServer => String::from_str("FastestServer"),
            StrategyNames::Random => String::from_str("Random"),
            StrategyNames::FewestConnections => String::from_str("FewestConnections"),
        }
    }

    /// Reads a strategy from its name, ignoring the case of ASCII letters.
    /// (Of all characters whose lower-case form is an ASCII letter, only the
    /// ASCII letters and the Kelvin sign are such, and no name holds a `k`,
    /// so this is the same as comparing full Unicode lower-case forms.)
    pub fn from_str(text: &str) -> (r: Result<StrategyNames, UnknownStrategy>)
        ensures
            r matches Ok(s) ==> StrategyNames::read(text@) == Some(s),
            r is Err <==> StrategyNames::read(text@) is None,
    {
        if equals_ignoring_ascii_case(text, "roundrobin") {
            Ok(StrategyNames::RoundRobin)
        } else if equals_ignoring_ascii_case(text, "fastestserver") {
            Ok(StrategyNames::FastestServer)
        } else if equals_ignoring_ascii_case(text, "random") {
            Ok(StrategyNames::Random)
        } else if equals_ignoring_ascii_case(text, "fewestconnections") {
            Ok(StrategyNames::FewestConnections)
        } else {
            Err(UnknownStrategy)
        }
    }
}

/// Reading the name of a strategy, as `to_string` writes it, gives that
/// strategy back.
pub proof fn lemma_read_written(s: StrategyNames)
    ensures
        StrategyNames::read(s.written()) == Some(s),
{
    reveal_strlit("RoundRobin");
    reveal_strlit("FastestServer");
    reveal_strlit("Random");
    reveal_strlit("FewestConnections");
    reveal_strlit("roundrobin");
    reveal_strlit("fastestserver");
    reveal_strlit("random");
    reveal_strlit("fewestconnections");
    assert(ascii_lower(s.written()) =~= s.written_lower());
    assert(StrategyNames::RoundRobin.written_lower().len() == 10);
    assert(StrategyNames::FastestServer.written_lower().len() == 13);
    assert(StrategyNames::Random.written_lower().len() == 6);
    assert(StrategyNames::FewestConnections.written_lower().len() == 17);
}

/// Reading ignores the case of ASCII letters: a text and its lower-case
/// form name the same strategy.
pub proof fn lemma_read_ignores_case(text: Seq<char>)
    ensures
        StrategyNames::read(ascii_lower(text)) == StrategyNames::read(text),
{
    assert(ascii_lower(ascii_lower(text)) =~= ascii_lower(text));
}

} // verus!
