//! The latency history of each worker host, looked up by host.

use vstd::prelude::*;
use std::collections::VecDeque;

verus! {

/// The map that a sequence of (key, value) pairs describes, later pairs
/// overriding earlier ones.
pub open spec fn pairs_to_map<K, V>(s: Seq<(K, V)>) -> Map<K, V>
    decreases s.len(),
{
    if s.len() == 0 {
        Map::empty()
    } else {
        pairs_to_map(s.drop_last()).insert(s.last().0, s.last().1)
    }
}

/// Whether no key occurs twice among the pairs.
pub open spec fn unique_keys<K, V>(s: Seq<(K, V)>) -> bool {
    forall|i: int, j: int| 0 <= i < j < s.len() ==> (#[trigger] s[i]).0 != (#[trigger] s[j]).0
}

/// A key is in the map exactly when some pair has it.
pub proof fn lemma_pairs_to_map_dom<K, V>(s: Seq<(K, V)>, k: K)
    ensures
        pairs_to_map(s).dom().contains(k) <==> exists|i: int| 0 <= i < s.len() && (#[trigger] s[i]).0 == k,
    decreases s.len(),
{
    if s.len() > 0 {
        let t = s.drop_last();
        lemma_pairs_to_map_dom(t, k);
        if pairs_to_map(s).dom().contains(k) {
            if s.last().0 != k {
                let i = choose|i: int| 0 <= i < t.len() && (#[trigger] t[i]).0 == k;
                assert(s[i] == t[i]);
            }
        }
        if exists|i: int| 0 <= i < s.len() && (#[trigger] s[i]).0 == k {
            let i = choose|i: int| 0 <= i < s.len() && (#[trigger] s[i]).0 == k;
            if i < s.len() - 1 {
                assert(t[i] == s[i]);
            }
        }
    }
}

/// With unique keys, the map gives each pair's value for its key.
pub proof fn lemma_pairs_to_map_value<K, V>(s: Seq<(K, V)>, i: int)
    requires
        unique_keys(s),
        0 <= i < s.len(),
    ensures
        pairs_to_map(s).dom().contains(s[i].0),
        pairs_to_map(s)[s[i].0] == s[i].1,
    decreases s.len(),
{
    let t = s.drop_last();
    if i < s.len() - 1 {
        assert(t[i] == s[i]);
        assert(unique_keys(t)) by {
            assert forall|a: int, b: int| 0 <= a < b < t.len() implies (#[trigger] t[a]).0 != (
            #[trigger] t[b]).0 by {
                assert(t[a] == s[a] && t[b] == s[b]);
            }
        }
        lemma_pairs_to_map_value(t, i);
        assert(s[i].0 != s[s.len() - 1].0);
    }
}

/// Replacing the value of one pair with unique keys replaces it in the map.
pub proof fn lemma_pairs_to_map_update<K, V>(s: Seq<(K, V)>, i: int, v: V)
    requires
        unique_keys(s),
        0 <= i < s.len(),
    ensures
        unique_keys(s.update(i, (s[i].0, v))),
        pairs_to_map(s.update(i, (s[i].0, v))) == pairs_to_map(s).insert(s[i].0, v),
{
    let t = s.update(i, (s[i].0, v));
    assert(unique_keys(t)) by {
        assert forall|a: int, b: int| 0 <= a < b < t.len() implies (#[trigger] t[a]).0 != (
        #[trigger] t[b]).0 by {
            assert(t[a].0 == s[a].0 && t[b].0 == s[b].0);
        }
    }
    let m = pairs_to_map(s).insert(s[i].0, v);
    assert forall|k: K| #[trigger] pairs_to_map(t).dom().contains(k) <==> m.dom().contains(k) by {
        lemma_pairs_to_map_dom(s, k);
        lemma_pairs_to_map_dom(t, k);
        if exists|j: int| 0 <= j < s.len() && (#[trigger] s[j]).0 == k {
            let j = choose|j: int| 0 <= j < s.len() && (#[trigger] s[j]).0 == k;
            assert(t[j].0 == k);
        }
        if exists|j: int| 0 <= j < t.len() && (#[trigger] t[j]).0 == k {
            let j = choose|j: int| 0 <= j < t.len() && (#[trigger] t[j]).0 == k;
            assert(s[j].0 == k);
        }
    }
    assert forall|k: K| #[trigger] pairs_to_map(t).dom().contains(k) implies pairs_to_map(t)[k]
        == m[k] by {
        lemma_pairs_to_map_dom(t, k);
        let j = choose|j: int| 0 <= j < t.len() && (#[trigger] t[j]).0 == k;
        lemma_pairs_to_map_value(t, j);
        if j == i {
            assert(t[j].1 == v);
        } else {
            lemma_pairs_to_map_value(s, j);
            assert(t[j] == s[j]);
        }
    }
    assert(pairs_to_map(t) =~= m);
}

/// Removing one pair with unique keys removes its key from the map.
pub proof fn lemma_pairs_to_map_remove<K, V>(s: Seq<(K, V)>, i: int)
    requires
        unique_keys(s),
        0 <= i < s.len(),
    ensures
        unique_keys(s.remove(i)),
        pairs_to_map(s.remove(i)) == pairs_to_map(s).remove(s[i].0),
{
    let t = s.remove(i);
    assert forall|j: int| 0 <= j < t.len() implies #[trigger] t[j] == (if j < i {
        s[j]
    } else {
        s[j + 1]
    }) by {}
    assert(unique_keys(t)) by {
        assert forall|a: int, b: int| 0 <= a < b < t.len() implies (#[trigger] t[a]).0 != (
        #[trigger] t[b]).0 by {
            if a < i {
                if b < i {
                } else {
                    assert(t[b] == s[b + 1]);
                }
            } else {
                assert(t[a] == s[a + 1] && t[b] == s[b + 1]);
            }
        }
    }
    let m = pairs_to_map(s).remove(s[i].0);
    assert forall|k: K| #[trigger] pairs_to_map(t).dom().contains(k) <==> m.dom().contains(k) by {
        lemma_pairs_to_map_dom(s, k);
        lemma_pairs_to_map_dom(t, k);
        if exists|j: int| 0 <= j < s.len() && (#[trigger] s[j]).0 == k {
            let j = choose|j: int| 0 <= j < s.len() && (#[trigger] s[j]).0 == k;
            if k != s[i].0 {
                assert(j != i);
                if j < i {
                    assert(t[j].0 == k);
                } else {
                    assert(t[j - 1].0 == k);
                }
            }
        }
        if exists|j: int| 0 <= j < t.len() && (#[trigger] t[j]).0 == k {
            let j = choose|j: int| 0 <= j < t.len() && (#[trigger] t[j]).0 == k;
            if j < i {
                assert(s[j].0 == k);
            } else {
                assert(s[j + 1].0 == k);
            }
        }
    }
    assert forall|k: K| #[trigger] pairs_to_map(t).dom().contains(k) implies pairs_to_map(t)[k]
        == m[k] by {
        lemma_pairs_to_map_dom(t, k);
        let j = choose|j: int| 0 <= j < t.len() && (#[trigger] t[j]).0 == k;
        lemma_pairs_to_map_value(t, j);
        if j < i {
            lemma_pairs_to_map_value(s, j);
        } else {
            lemma_pairs_to_map_value(s, j + 1);
        }
    }
    assert(pairs_to_map(t) =~= m);
}

/// One host and its latency history, newest first.
struct LatencyEntry {
    host: String,
    latencies: VecDeque<u128>,
}

/// The (host, history) pairs of a sequence of entries.
spec fn entry_pairs(entries: Seq<LatencyEntry>) -> Seq<(Seq<char>, Seq<u128>)> {
    entries.map_values(|e: LatencyEntry| (e.host@, e.latencies@))
}

/// The latency history of each host, newest sample first.
pub struct LatencyTable {
    entries: Vec<LatencyEntry>,
}

impl View for LatencyTable {
    type V = Map<Seq<char>, Seq<u128>>;

    closed spec fn view(&self) -> Map<Seq<char>, Seq<u128>> {
        pairs_to_map(entry_pairs(self.entries@))
    }
}

impl LatencyTable {
    #[verifier::type_invariant]
    closed spec fn keys_unique(self) -> bool {
        unique_keys(entry_pairs(self.entries@))
    }

    /// A table with no host.
    pub fn new() -> (t: LatencyTable)
        ensures
            t@ == Map::<Seq<char>, Seq<u128>>::empty(),
    {
        let t = LatencyTable { entries: Vec::new() };
        assert(entry_pairs(t.entries@) =~= Seq::<(Seq<char>, Seq<u128>)>::empty());
        t
    }

    /// Where the entry of `host` stands, if it has one.
    fn position(&self, host: &String) -> (r: Option<usize>)
        ensures
            r matches Some(i) ==> i < self.entries@.len() && self.entries@[i as int].host@ == host@,
            r is None ==> forall|j: int|
                0 <= j < self.entries@.len() ==> (#[trigger] self.entries@[j]).host@ != host@,
    {
        let mut i: usize = 0;
        while i < self.entries.len()
            invariant
                i <= self.entries@.len(),
                forall|j: int| 0 <= j < i ==> (#[trigger] self.entries@[j]).host@ != host@,
            decreases self.entries@.len() - i,
        {
            if self.entries[i].host == *host {
                return Some(i);
            }
            i = i + 1;
        }
        None
    }

    /// The history of `host`, if it has one.
    pub fn get(&self, host: &String) -> (r: Option<&VecDeque<u128>>)
        ensures
            r is Some <==> self@.dom().contains(host@),
            r matches Some(q) ==> q@ == self@[host@],
    {
        proof {
            use_type_invariant(self);
        }
        let ghost pairs = entry_pairs(self.entries@);
        proof {
            lemma_pairs_to_map_dom(pairs, host@);
        }
        match self.position(host) {
            Some(i) => {
                proof {
                    assert(pairs[i as int].0 == host@);
                    lemma_pairs_to_map_value(pairs, i as int);
                }
                Some(&self.entries[i].latencies)
            },
            None => {
                proof {
                    assert forall|j: int| 0 <= j < pairs.len() implies (#[trigger] pairs[j]).0
                        != host@ by {
                        assert(pairs[j].0 == self.entries@[j].host@);
                    }
                }
                None
            },
        }
    }

    /// Takes the history of `host` out of the table, if it has one.
    pub fn remove(&mut self, host: &String) -> (r: Option<VecDeque<u128>>)
        ensures
            r is Some <==> old(self)@.dom().contains(host@),
            r matches Some(q) ==> q@ == old(self)@[host@],
            final(self)@ == old(self)@.remove(host@),
    {
        proof {
            use_type_invariant(&*self);
        }
        let ghost pairs = entry_pairs(self.entries@);
        proof {
            lemma_pairs_to_map_dom(pairs, host@);
        }
        match self.position(host) {
            Some(i) => {
                proof {
                    assert(pairs[i as int].0 == host@);
                    lemma_pairs_to_map_value(pairs, i as int);
                    lemma_pairs_to_map_remove(pairs, i as int);
                }
                let mut entries: Vec<LatencyEntry> = Vec::new();
                std::mem::swap(&mut entries, &mut self.entries);
                let e = entries.remove(i);
                proof {
                    assert(entry_pairs(entries@) =~= pairs.remove(i as int));
                }
                self.entries = entries;
                Some(e.latencies)
            },
            None => {
                proof {
                    assert forall|j: int| 0 <= j < pairs.len() implies (#[trigger] pairs[j]).0
                        != host@ by {
                        assert(pairs[j].0 == self.entries@[j].host@);
                    }
                    assert(self@.remove(host@) =~= self@);
                }
                None
            },
        }
    }

    /// Sets the history of `host`, adding the host if it has none.
    pub fn insert(&mut self, host: String, latencies: VecDeque<u128>)
        ensures
            final(self)@ == old(self)@.insert(host@, latencies@),
    {
        proof {
            use_type_invariant(&*self);
        }
        let ghost pairs = entry_pairs(self.entries@);
        let pos = self.position(&host);
        let mut entries: Vec<LatencyEntry> = Vec::new();
        std::mem::swap(&mut entries, &mut self.entries);
        let ghost k = host@;
        let ghost v = latencies@;
        let e = LatencyEntry { host, latencies };
        match pos {
            Some(i) => {
                proof {
                    lemma_pairs_to_map_update(pairs, i as int, v);
                }
                entries.set(i, e);
                proof {
                    assert(entry_pairs(entries@) =~= pairs.update(i as int, (pairs[i as int].0, v)));
                }
            },
            None => {
                entries.push(e);
                proof {
                    let t = entry_pairs(entries@);
                    assert(t =~= pairs.push((k, v)));
                    assert(t.drop_last() =~= pairs);
                    assert forall|a: int, b: int| 0 <= a < b < t.len() implies (
                    #[trigger] t[a]).0 != (#[trigger] t[b]).0 by {
                        if b == t.len() - 1 {
                            assert(t[a].0 == entries@[a].host@);
                        } else {
                            assert(t[a] == pairs[a] && t[b] == pairs[b]);
                        }
                    }
                }
            },
        }
        self.entries = entries;
    }
}

} // verus!
