//! What the load balancer's front end decides about a request: where it
//! goes, and what a request to change the strategy asks for.

use vstd::prelude::*;
use vstd::string::*;
use crate::performance::latency_table::{
    lemma_pairs_to_map_update, pairs_to_map, unique_keys,
};
use crate::strategy::strategy::StrategyNames;
use crate::utils::same_text;

verus! {

/// Where a request is handled.
#[derive(Debug, PartialEq, Eq, Structural, Clone, Copy)]
pub enum Route {
    /// A request to change the strategy.
    SetStrategy,
    /// Any other request, forwarded to a worker.
    Forward,
}

/// Requests to the path `/set-strategy` change the strategy; all others are
/// forwarded.
pub fn route(path: &str) -> (r: Route)
    ensures
        r == Route::SetStrategy <==> path@ == "/set-strategy"@,
{
    if same_text(path, "/set-strategy") {
        Route::SetStrategy
    } else {
        Route::Forward
    }
}

/// Why a request to change the strategy was refused.
#[derive(Debug, PartialEq, Eq, Structural, Clone, Copy)]
pub enum SetStrategyError {
    /// The request has no query.
    MissingQuery,
    /// The query has no `strategy` parameter.
    MissingStrategy,
    /// The `strategy` parameter names no strategy.
    UnknownStrategy,
}

/// The name-value pairs that `url::form_urlencoded::parse` decodes from
/// `query`, in order.
pub uninterp spec fn form_urlencoded_pairs(query: Seq<char>) -> Seq<(Seq<char>, Seq<char>)>;

/// The pairs of a list as texts.
pub open spec fn pair_texts(pairs: Seq<(String, String)>) -> Seq<(Seq<char>, Seq<char>)> {
    pairs.map_values(|p: (String, String)| (p.0@, p.1@))
}

/// Decodes a form-urlencoded query into its name-value pairs with
/// `url::form_urlencoded::parse`, owned, in order. Claimed: the pairs are
/// `form_urlencoded_pairs` of the query; what decoding does to escapes is
/// left to that name.
#[verifier::external_body]
pub(crate) fn parse_query_pairs(query: &str) -> (pairs: Vec<(String, String)>)
    ensures
        pair_texts(pairs@) == form_urlencoded_pairs(query@),
{
    url::form_urlencoded::parse(query.as_bytes()).into_owned().collect()
}

/// The value of the last pair named `key`, if any.
pub open spec fn last_value_of(pairs: Seq<(Seq<char>, Seq<char>)>, key: Seq<char>) -> Option<Seq<char>>
    decreases pairs.len(),
{
    if pairs.len() == 0 {
        None
    } else if pairs.last().0 == key {
        Some(pairs.last().1)
    } else {
        last_value_of(pairs.drop_last(), key)
    }
}

/// The name of the parameter that names the strategy.
pub open spec fn strategy_key() -> Seq<char> {
    "strategy"@
}

/// The strategy that a request's parameters ask for, or why they ask for
/// none.
pub open spec fn requested_strategy(pairs: Seq<(Seq<char>, Seq<char>)>) -> Result<StrategyNames, SetStrategyError> {
    match last_value_of(pairs, strategy_key()) {
        None => Err(SetStrategyError::MissingStrategy),
        Some(v) => match StrategyNames::read(v) {
            None => Err(SetStrategyError::UnknownStrategy),
            Some(s) => Ok(s),
        },
    }
}

/// Pairs past the last one named `key` do not matter.
proof fn lemma_last_value_of_prefix(pairs: Seq<(Seq<char>, Seq<char>)>, key: Seq<char>, i: int)
    requires
        0 <= i <= pairs.len(),
        forall|j: int| i <= j < pairs.len() ==> (#[trigger] pairs[j]).0 != key,
    ensures
        last_value_of(pairs, key) == last_value_of(pairs.take(i), key),
    decreases pairs.len() - i,
{
    if i == pairs.len() {
        assert(pairs.take(i) =~= pairs);
    } else {
        let t = pairs.drop_last();
        assert forall|j: int| i <= j < t.len() implies (#[trigger] t[j]).0 != key by {
            assert(t[j] == pairs[j]);
        }
        lemma_last_value_of_prefix(t, key, i);
        assert(t.take(i) =~= pairs.take(i));
    }
}

/// The value of the last `strategy` parameter among `pairs`, if any: later
/// pairs override earlier ones, as when they are collected into a map.
pub fn strategy_param(pairs: &Vec<(String, String)>) -> (v: Option<String>)
    ensures
        v matches Some(s) ==> last_value_of(pair_texts(pairs@), strategy_key()) == Some(s@),
        v is None ==> last_value_of(pair_texts(pairs@), strategy_key()) is None,
{
    let ghost texts = pair_texts(pairs@);
    let mut i = pairs.len();
    while i > 0
        invariant
            i <= pairs@.len(),
            texts == pair_texts(pairs@),
            forall|j: int| i <= j < pairs@.len() ==> (#[trigger] texts[j]).0 != strategy_key(),
        decreases i,
    {
        i = i - 1;
        let found = same_text(pairs[i].0.as_str(), "strategy");
        if found {
            proof {
                assert(texts[i as int].0 == strategy_key());
                lemma_last_value_of_prefix(texts, strategy_key(), i + 1);
                assert(texts.take(i + 1).last() == texts[i as int]);
            }
            return Some(pairs[i].1.clone());
        }
        proof {
            assert(texts[i as int].0 == pairs@[i as int].0@);
        }
    }
    proof {
        lemma_last_value_of_prefix(texts, strategy_key(), 0);
    }
    None
}

/// The answer to a request that changed the strategy.
pub fn strategy_change_message(existing_strategy: StrategyNames, new_strategy: StrategyNames) -> (m: String)
    ensures
        m@ == "original strategy:"@ + existing_strategy.written() + ", new strategy:"@
            + new_strategy.written(),
{
    let mut m = String::from_str("original strategy:");
    let existing = existing_strategy.to_string();
    m.append(existing.as_str());
    m.append(", new strategy:");
    let new = new_strategy.to_string();
    m.append(new.as_str());
    m
}

/// Request headers as plain values: each header's name and its value's
/// bytes.
pub open spec fn header_views(headers: Seq<(String, Vec<u8>)>) -> Seq<(Seq<char>, Seq<u8>)> {
    headers.map_values(|h: (String, Vec<u8>)| (h.0@, h.1@))
}

/// Where the header named `name` stands among `headers`, if it is there.
fn header_position(headers: &Vec<(String, Vec<u8>)>, name: &String) -> (r: Option<usize>)
    ensures
        r matches Some(j) ==> j < headers@.len() && headers@[j as int].0@ == name@,
        r is None ==> forall|k: int|
            0 <= k < headers@.len() ==> (#[trigger] headers@[k]).0@ != name@,
{
    let mut j: usize = 0;
    while j < headers.len()
        invariant
            j <= headers@.len(),
            forall|k: int| 0 <= k < j ==> (#[trigger] headers@[k]).0@ != name@,
        decreases headers@.len() - j,
    {
        if headers[j].0 == *name {
            return Some(j);
        }
        j = j + 1;
    }
    None
}

/// The headers to put on a forwarded request: each name of `headers` once,
/// with the last value it has among them (a later header of the same name
/// replaces an earlier one), and no other name.
pub fn forwarded_headers(headers: &Vec<(String, Vec<u8>)>) -> (out: Vec<(String, Vec<u8>)>)
    ensures
        unique_keys(header_views(out@)),
        pairs_to_map(header_views(out@)) == pairs_to_map(header_views(headers@)),
{
    let mut out: Vec<(String, Vec<u8>)> = Vec::new();
    let mut i: usize = 0;
    assert(header_views(headers@).take(0) =~= Seq::<(Seq<char>, Seq<u8>)>::empty());
    assert(header_views(out@) =~= Seq::<(Seq<char>, Seq<u8>)>::empty());
    while i < headers.len()
        invariant
            i <= headers@.len(),
            unique_keys(header_views(out@)),
            pairs_to_map(header_views(out@)) == pairs_to_map(header_views(headers@).take(i as int)),
        decreases headers@.len() - i,
    {
        let name = headers[i].0.clone();
        let value = headers[i].1.clone();
        let ghost all = header_views(headers@);
        let ghost before = header_views(out@);
        proof {
            assert(value@ =~= headers@[i as int].1@);
            assert(all[i as int] == (name@, value@));
            assert(all.take(i + 1).drop_last() =~= all.take(i as int));
            assert(all.take(i + 1).last() == all[i as int]);
        }
        match header_position(&out, &name) {
            Some(j) => {
                proof {
                    assert(before[j as int].0 == name@);
                    lemma_pairs_to_map_update(before, j as int, value@);
                }
                out.set(j, (name, value));
                proof {
                    assert(header_views(out@) =~= before.update(j as int, (before[j as int].0, value@)));
                }
            },
            None => {
                let ghost pair = (name@, value@);
                out.push((name, value));
                proof {
                    let t = header_views(out@);
                    assert(t =~= before.push(pair));
                    assert(t.drop_last() =~= before);
                    assert forall|a: int, b: int| 0 <= a < b < t.len() implies (#[trigger] t[a]).0
                        != (#[trigger] t[b]).0 by {
                        if b == t.len() - 1 {
                            assert(t[a] == before[a]);
                            assert(before[a].0 == out@[a].0@);
                        } else {
                            assert(t[a] == before[a] && t[b] == before[b]);
                        }
                    }
                }
            },
        }
        i = i + 1;
    }
    assert(header_views(headers@).take(i as int) =~= header_views(headers@));
    out
}

} // verus!
