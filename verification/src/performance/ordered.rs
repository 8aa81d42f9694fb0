//! Sequences kept in ascending order of a key, and what inserting into
//! them does.

use vstd::prelude::*;

verus! {

/// Whether the keys along `s` never decrease.
pub open spec fn keys_ascending<A>(s: Seq<A>, key: spec_fn(A) -> int) -> bool {
    forall|i: int, j: int| 0 <= i <= j < s.len() ==> key(#[trigger] s[i]) <= key(#[trigger] s[j])
}

/// `s` with `x` placed after every leading element whose key is at most the
/// key of `x`: in an ascending sequence, after all elements with a key at
/// most that of `x` and before all with a greater key.
pub open spec fn insert_by_key<A>(s: Seq<A>, x: A, key: spec_fn(A) -> int) -> Seq<A>
    decreases s.len(),
{
    if s.len() == 0 {
        seq![x]
    } else if key(x) < key(s[0]) {
        seq![x] + s
    } else {
        seq![s[0]] + insert_by_key(s.drop_first(), x, key)
    }
}

/// Whether `p` is where `insert_by_key` puts `x` into `s`.
pub open spec fn is_insert_position<A>(s: Seq<A>, x: A, key: spec_fn(A) -> int, p: int) -> bool {
    &&& 0 <= p <= s.len()
    &&& forall|i: int| 0 <= i < p ==> key(#[trigger] s[i]) <= key(x)
    &&& p < s.len() ==> key(x) < key(s[p])
}

/// The first components of a sequence of pairs.
pub open spec fn firsts<K, V>(s: Seq<(K, V)>) -> Seq<K> {
    s.map_values(|p: (K, V)| p.0)
}

/// At an insert position, `insert_by_key` is a plain insertion.
pub proof fn lemma_insert_by_key_at<A>(s: Seq<A>, x: A, key: spec_fn(A) -> int, p: int)
    requires
        is_insert_position(s, x, key, p),
    ensures
        insert_by_key(s, x, key) == s.insert(p, x),
    decreases p,
{
    if p == 0 {
        if s.len() == 0 {
            assert(s.insert(0, x) =~= seq![x]);
        } else {
            assert(seq![x] + s =~= s.insert(0, x));
        }
    } else {
        let rest = s.drop_first();
        assert forall|i: int| 0 <= i < p - 1 implies key(#[trigger] rest[i]) <= key(x) by {
            assert(rest[i] == s[i + 1]);
        }
        if p - 1 < rest.len() {
            assert(rest[p - 1] == s[p]);
        }
        lemma_insert_by_key_at(rest, x, key, p - 1);
        assert(key(s[0]) <= key(x));
        assert(seq![s[0]] + rest.insert(p - 1, x) =~= s.insert(p, x));
    }
}

/// Every sequence has an insert position for every element.
pub proof fn lemma_insert_position_exists<A>(s: Seq<A>, x: A, key: spec_fn(A) -> int) -> (p: int)
    ensures
        is_insert_position(s, x, key, p),
    decreases s.len(),
{
    if s.len() == 0 || key(x) < key(s[0]) {
        0
    } else {
        let rest = s.drop_first();
        let q = lemma_insert_position_exists(rest, x, key);
        assert forall|i: int| 0 <= i < q + 1 implies key(#[trigger] s[i]) <= key(x) by {
            if i > 0 {
                assert(s[i] == rest[i - 1]);
            }
        }
        if q + 1 < s.len() {
            assert(s[q + 1] == rest[q]);
        }
        q + 1
    }
}

/// Inserting at an insert position keeps an ascending sequence ascending
/// and adds exactly the inserted element.
pub proof fn lemma_insert_at_position_properties<A>(s: Seq<A>, x: A, key: spec_fn(A) -> int, p: int)
    requires
        is_insert_position(s, x, key, p),
    ensures
        keys_ascending(s, key) ==> keys_ascending(s.insert(p, x), key),
        s.insert(p, x).to_multiset() == s.to_multiset().insert(x),
        s.insert(p, x).len() == s.len() + 1,
{
    vstd::seq_lib::to_multiset_insert(s, p, x);
    let t = s.insert(p, x);
    if keys_ascending(s, key) {
        assert forall|i: int, j: int| 0 <= i <= j < t.len() implies key(#[trigger] t[i]) <= key(
            #[trigger] t[j],
        ) by {
            if j < p {
                assert(t[i] == s[i] && t[j] == s[j]);
            } else if j == p {
                if i < p {
                    assert(t[i] == s[i]);
                }
            } else {
                assert(t[j] == s[j - 1]);
                if i < p {
                    assert(t[i] == s[i]);
                } else if i == p {
                    assert(key(s[p]) <= key(s[j - 1]));
                } else {
                    assert(t[i] == s[i - 1]);
                }
            }
        }
    }
}

/// Replacing the first pair of a sequence by one with the same first
/// component, placed by `insert_by_key`, keeps the multiset of first
/// components.
pub proof fn lemma_reinsert_first_keeps_firsts<K, V>(
    s: Seq<(K, V)>,
    v: V,
    key: spec_fn((K, V)) -> int,
)
    requires
        s.len() > 0,
    ensures
        firsts(insert_by_key(s.drop_first(), (s[0].0, v), key)).to_multiset() == firsts(
            s,
        ).to_multiset(),
{
    let rest = s.drop_first();
    let x = (s[0].0, v);
    let p = lemma_insert_position_exists(rest, x, key);
    lemma_insert_by_key_at(rest, x, key, p);
    assert(firsts(rest.insert(p, x)) =~= firsts(rest).insert(p, s[0].0));
    assert(firsts(rest) =~= firsts(s).remove(0));
    vstd::seq_lib::to_multiset_insert(firsts(rest), p, s[0].0);
    vstd::seq_lib::to_multiset_remove(firsts(s), 0);
    vstd::seq_lib::to_multiset_contains(firsts(s), s[0].0);
    assert(firsts(s)[0] == s[0].0);
    assert(firsts(s).contains(s[0].0));
    broadcast use vstd::multiset::group_multiset_axioms;
    assert(firsts(s).to_multiset().remove(s[0].0).insert(s[0].0) =~= firsts(s).to_multiset());
}

} // verus!
