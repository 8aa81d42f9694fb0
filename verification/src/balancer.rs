//! The load balancer: the strategies and the measurements, and what a
//! request to it does.

use vstd::prelude::*;
use vstd::string::*;
use crate::performance::metrics::PerformanceMetrics;
use crate::routing::{requested_strategy, SetStrategyError, form_urlencoded_pairs, pair_texts, parse_query_pairs, strategy_param};
use crate::strategy::strategy::StrategyNames;
use crate::strategy::strategy_manager::{lemma_strategy_read_after_write, StrategyManager};

verus! {

/// The text of a request's path and query, empty when it has none.
pub open spec fn path_and_query_text(path_and_query: Option<&str>) -> Seq<char> {
    match path_and_query {
        Some(p) => p@,
        None => Seq::empty(),
    }
}

/// Whether `hyper::Uri::from_str` accepts `text` as a URI.
pub uninterp spec fn uri_parses(text: Seq<char>) -> bool;

/// Tries `text` with `hyper::Uri::from_str` (through `str::parse`) and says whether it is a URI.
/// Claimed: the answer is `uri_parses` of the text; what that parser accepts
/// is left to that name.
#[verifier::external_body]
fn is_uri(text: &str) -> (r: bool)
    ensures
        r == uri_parses(text@),
{
    text.parse::<hyper::Uri>().is_ok()
}

/// Why a request cannot be forwarded.
#[derive(Debug, PartialEq, Eq, Structural, Clone, Copy)]
pub enum ForwardError {
    /// The strategy in use has no host to hand out.
    NoWorker,
    /// The host followed by the request's path and query is not a URI.
    InvalidAddress,
}

/// The forwarded address keeps the request's path and query whole: the
/// text appended to the host is all of the path and query, or nothing when
/// there is none, so the address is the host followed by exactly those
/// characters.
pub proof fn lemma_forward_address_keeps_path_and_query(host: Seq<char>, path_and_query: Option<&str>)
    ensures
        path_and_query matches Some(p) ==> host + path_and_query_text(path_and_query) == host + p@,
        path_and_query matches Some(p) ==> (host + path_and_query_text(path_and_query)).len()
            == host.len() + p@.len(),
        path_and_query is None ==> host + path_and_query_text(path_and_query) == host,
{
    if path_and_query is None {
        assert(host + Seq::<char>::empty() =~= host);
    }
}

/// Picks a worker for each request, by the strategy in use.
pub struct LoadBalancer {
    strategy_manager: StrategyManager,
    pub perforamance_metrics: PerformanceMetrics,
}

impl LoadBalancer {
    /// The strategies and which of them is in use.
    pub closed spec fn manager(self) -> StrategyManager {
        self.strategy_manager
    }

    /// The measurements the strategies go by.
    pub closed spec fn metrics(self) -> PerformanceMetrics {
        self.perforamance_metrics
    }

    /// The strategy in use.
    pub fn get_strategy(&self) -> (s: StrategyNames)
        ensures
            s == self.manager().strategy(),
    {
        self.strategy_manager.get_strategy()
    }

    /// Puts `new_strategy` in use; nothing else changes.
    pub fn set_strategy(&mut self, new_strategy: StrategyNames)
        ensures
            final(self).manager() == old(self).manager().with_strategy(new_strategy),
            final(self).metrics() == old(self).metrics(),
    {
        self.strategy_manager.set_strategy(new_strategy);
    }

    /// A load balancer over `strategy_manager` and `perforamance_metrics`,
    /// once the strategy in use has handed out a host; an error when it has
    /// none to hand out.
    pub fn new(strategy_manager: StrategyManager, perforamance_metrics: PerformanceMetrics) -> (r: Result<LoadBalancer, String>)
        ensures
            r is Ok <==> strategy_manager.worker_available(perforamance_metrics),
            r matches Ok(lb) ==> lb.manager().after_pick_of(strategy_manager)
                && lb.metrics() == perforamance_metrics,
            r matches Err(e) ==> e@ == "No worker hosts provided"@,
    {
        let mut strategy_manager = strategy_manager;
        if strategy_manager.get_worker(&perforamance_metrics).is_none() {
            return Err(String::from_str("No worker hosts provided"));
        }
        Ok(LoadBalancer { strategy_manager, perforamance_metrics })
    }

    /// A host from the strategy in use.
    fn get_worker(&mut self) -> (w: Option<String>)
        ensures
            final(self).manager().after_pick_of(old(self).manager()),
            final(self).metrics() == old(self).metrics(),
            w is Some <==> old(self).manager().worker_available(old(self).metrics()),
            w matches Some(h) ==> old(self).manager().may_serve(old(self).metrics(), h@),
    {
        self.strategy_manager.get_worker(&self.perforamance_metrics)
    }

    /// Where a request goes: the host that the strategy in use hands out,
    /// and the address made of that host followed by the request's path and
    /// query. An error, instead of an address, when the strategy has no host
    /// to hand out, or when that address is not a URI; the strategy has
    /// handed out a host in the second case all the same.
    pub fn forward_request(&mut self, path_and_query: Option<&str>) -> (r: Result<(String, String), ForwardError>)
        ensures
            final(self).manager().after_pick_of(old(self).manager()),
            final(self).metrics() == old(self).metrics(),
            r == Err::<(String, String), ForwardError>(ForwardError::NoWorker) <==> !old(self).manager().worker_available(old(self).metrics()),
            r matches Ok((host, uri)) ==> {
                &&& old(self).manager().may_serve(old(self).metrics(), host@)
                &&& uri@ == host@ + path_and_query_text(path_and_query)
                &&& uri_parses(uri@)
                // The whole path and query follow the host, nothing dropped.
                &&& match path_and_query {
                    Some(p) => uri@ == host@ + p@,
                    None => uri@ == host@,
                }
            },
            r == Err::<(String, String), ForwardError>(ForwardError::InvalidAddress) ==> exists|host: Seq<char>|
                #[trigger] old(self).manager().may_serve(old(self).metrics(), host)
                    && !uri_parses(host + path_and_query_text(path_and_query)),
    {
        let ghost before = *self;
        match self.get_worker() {
            None => Err(ForwardError::NoWorker),
            Some(worker) => {
                let host = worker.clone();
                let mut worker_uri = worker;
                match path_and_query {
                    Some(p) => worker_uri.append(p),
                    None => {
                        assert(worker_uri@ + Seq::<char>::empty() =~= worker_uri@);
                    },
                }
                if is_uri(worker_uri.as_str()) {
                    Ok((host, worker_uri))
                } else {
                    proof {
                        assert(before.manager().may_serve(before.metrics(), host@));
                    }
                    Err(ForwardError::InvalidAddress)
                }
            },
        }
    }

    /// Puts in use the strategy that the `strategy` parameter among `pairs`
    /// names (the last such parameter counts), and gives back the strategy
    /// that was in use and the new one. Without such a parameter, or when it
    /// names no strategy, nothing changes and the error says which.
    pub fn apply_strategy_params(&mut self, pairs: &Vec<(String, String)>) -> (r: Result<(StrategyNames, StrategyNames), SetStrategyError>)
        ensures
            match requested_strategy(pair_texts(pairs@)) {
                Err(e) => r == Err::<(StrategyNames, StrategyNames), SetStrategyError>(e) && *final(self) == *old(self),
                Ok(s) => {
                    &&& r == Ok::<(StrategyNames, StrategyNames), SetStrategyError>((old(self).manager().strategy(), s))
                    &&& final(self).manager() == old(self).manager().with_strategy(s)
                    &&& final(self).metrics() == old(self).metrics()
                },
            },
    {
        match strategy_param(pairs) {
            None => Err(SetStrategyError::MissingStrategy),
            Some(value) => match StrategyNames::from_str(value.as_str()) {
                Err(_) => Err(SetStrategyError::UnknownStrategy),
                Ok(new_strategy) => {
                    let existing_strategy = self.get_strategy();
                    self.set_strategy(new_strategy);
                    Ok((existing_strategy, new_strategy))
                },
            },
        }
    }

    /// Handles a request to change the strategy: reads the request's query
    /// as form-urlencoded parameters and applies them as
    /// `apply_strategy_params` does. A request without a query changes
    /// nothing. Every refusal comes back as the error that names it.
    pub fn set_strategy_from_query(&mut self, query: Option<&str>) -> (r: Result<(StrategyNames, StrategyNames), SetStrategyError>)
        ensures
            query is None ==> r == Err::<(StrategyNames, StrategyNames), SetStrategyError>(SetStrategyError::MissingQuery)
                && *final(self) == *old(self),
            query matches Some(q) ==> match requested_strategy(form_urlencoded_pairs(q@)) {
                Err(e) => r == Err::<(StrategyNames, StrategyNames), SetStrategyError>(e) && *final(self) == *old(self),
                Ok(s) => {
                    &&& r == Ok::<(StrategyNames, StrategyNames), SetStrategyError>((old(self).manager().strategy(), s))
                    &&& final(self).manager() == old(self).manager().with_strategy(s)
                    &&& final(self).metrics() == old(self).metrics()
                },
            },
    {
        match query {
            None => Err(SetStrategyError::MissingQuery),
            Some(q) => {
                let pairs = parse_query_pairs(q);
                self.apply_strategy_params(&pairs)
            },
        }
    }
}

/// On a load balancer, what `get_strategy` reads after `set_strategy` is
/// what was set; the hosts, the round robin position and the measurements
/// stay as they were.
pub proof fn lemma_balancer_strategy_read_after_write(
    before: LoadBalancer,
    after: LoadBalancer,
    strategy: StrategyNames,
)
    requires
        after.manager() == before.manager().with_strategy(strategy),
        after.metrics() == before.metrics(),
    ensures
        after.manager().strategy() == strategy,
        after.manager().hosts() == before.manager().hosts(),
        after.manager().random_hosts() == before.manager().random_hosts(),
        after.manager().cursor() == before.manager().cursor(),
        after.metrics() == before.metrics(),
{
    lemma_strategy_read_after_write(before.manager(), strategy);
}

} // verus!
