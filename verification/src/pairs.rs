//! Pairs of key text and value text, kept in the order of their keys.

use vstd::prelude::*;
use crate::order::{compare_text, lemma_text_lt_total, lemma_text_lt_transitive, text_lt, Order};

verus! {

/// A key with its value, both as text.
pub type TextPair = (Seq<char>, Seq<char>);

/// The map that results from inserting `pairs` one after the other into an
/// empty map: of two pairs with the same key the later one stays.
pub open spec fn pairs_map(pairs: Seq<TextPair>) -> Map<Seq<char>, Seq<char>>
    decreases pairs.len(),
{
    if pairs.len() == 0 {
        Map::empty()
    } else {
        pairs_map(pairs.drop_last()).insert(pairs.last().0, pairs.last().1)
    }
}

/// Whether no two pairs of `pairs` have the same key.
pub open spec fn distinct_keys(pairs: Seq<TextPair>) -> bool {
    forall|i: int, j: int|
        0 <= i < j < pairs.len() ==> (#[trigger] pairs[i]).0 != (#[trigger] pairs[j]).0
}

/// The keys of the map made of `pairs` are the keys of the pairs.
pub proof fn lemma_pairs_map_keys(pairs: Seq<TextPair>, k: Seq<char>)
    ensures
        pairs_map(pairs).dom().contains(k) <==> exists|i: int|
            0 <= i < pairs.len() && (#[trigger] pairs[i]).0 == k,
    decreases pairs.len(),
{
    if pairs.len() > 0 {
        let before = pairs.drop_last();
        lemma_pairs_map_keys(before, k);
        if pairs_map(pairs).dom().contains(k) {
            if k == pairs.last().0 {
                assert(pairs[pairs.len() - 1].0 == k);
            } else {
                let i = choose|i: int| 0 <= i < before.len() && (#[trigger] before[i]).0 == k;
                assert(pairs[i].0 == k);
            }
        }
        if exists|i: int| 0 <= i < pairs.len() && (#[trigger] pairs[i]).0 == k {
            let i = choose|i: int| 0 <= i < pairs.len() && (#[trigger] pairs[i]).0 == k;
            if i < pairs.len() - 1 {
                assert(before[i].0 == k);
            }
        }
    }
}

/// Where no key comes twice, the map made of `pairs` holds each of the pairs.
pub proof fn lemma_pairs_map_holds(pairs: Seq<TextPair>, i: int)
    requires
        distinct_keys(pairs),
        0 <= i < pairs.len(),
    ensures
        pairs_map(pairs).contains_pair(pairs[i].0, pairs[i].1),
    decreases pairs.len(),
{
    let before = pairs.drop_last();
    if i < pairs.len() - 1 {
        assert forall|a: int, b: int| 0 <= a < b < before.len() implies (#[trigger] before[a]).0
            != (#[trigger] before[b]).0 by {
            assert(pairs[a].0 != pairs[b].0);
        }
        lemma_pairs_map_holds(before, i);
        assert(pairs[i].0 != pairs[pairs.len() - 1].0);
        assert(before[i] == pairs[i]);
    }
}

/// Whether the keys of `pairs` are strictly ascending in the order of keys.
pub open spec fn strictly_ascending(pairs: Seq<TextPair>) -> bool {
    forall|i: int, j: int|
        0 <= i < j < pairs.len() ==> text_lt(#[trigger] pairs[i].0, #[trigger] pairs[j].0)
}

/// Whether `pairs` lists exactly the pairs of `m`, by strictly ascending key.
pub open spec fn lists(pairs: Seq<TextPair>, m: Map<Seq<char>, Seq<char>>) -> bool {
    &&& strictly_ascending(pairs)
    &&& forall|i: int|
        0 <= i < pairs.len() ==> m.contains_pair((#[trigger] pairs[i]).0, pairs[i].1)
    &&& forall|k: Seq<char>| #[trigger]
        m.dom().contains(k) ==> exists|i: int| 0 <= i < pairs.len() && (#[trigger] pairs[i]).0 == k
}

/// The pairs of `m` by ascending key.
pub open spec fn ascending_pairs(m: Map<Seq<char>, Seq<char>>) -> Seq<TextPair> {
    choose|pairs: Seq<TextPair>| lists(pairs, m)
}

/// A map has at most one listing by ascending key.
pub proof fn lemma_lists_unique(a: Seq<TextPair>, b: Seq<TextPair>, m: Map<Seq<char>, Seq<char>>)
    requires
        lists(a, m),
        lists(b, m),
    ensures
        a == b,
    decreases a.len(),
{
    if a.len() == 0 {
        if b.len() > 0 {
            assert(m.contains_pair(b[0].0, b[0].1));
            assert(m.dom().contains(b[0].0));
        }
        assert(a =~= b);
    } else {
        assert(m.contains_pair(a[0].0, a[0].1));
        assert(m.dom().contains(a[0].0));
        let j = choose|j: int| 0 <= j < b.len() && (#[trigger] b[j]).0 == a[0].0;
        assert(m.contains_pair(b[0].0, b[0].1));
        assert(m.dom().contains(b[0].0));
        let i = choose|i: int| 0 <= i < a.len() && (#[trigger] a[i]).0 == b[0].0;
        lemma_text_lt_total(a[0].0, b[0].0);
        if j > 0 {
            assert(text_lt(b[0].0, b[j].0));
            if i > 0 {
                assert(text_lt(a[0].0, a[i].0));
            }
        }
        assert(a[0].0 == b[0].0);
        assert(m.contains_pair(a[0].0, a[0].1));
        assert(a[0] == b[0]);
        let k0 = a[0].0;
        let rest = m.remove(k0);
        let a1 = a.drop_first();
        let b1 = b.drop_first();
        lemma_lists_rest(a, m);
        lemma_lists_rest(b, m);
        lemma_lists_unique(a1, b1, rest);
        assert(a =~= seq![a[0]] + a1);
        assert(b =~= seq![b[0]] + b1);
    }
}

/// Without its first pair, a listing lists the map without that pair's key.
proof fn lemma_lists_rest(a: Seq<TextPair>, m: Map<Seq<char>, Seq<char>>)
    requires
        lists(a, m),
        a.len() > 0,
    ensures
        lists(a.drop_first(), m.remove(a[0].0)),
{
    let a1 = a.drop_first();
    let rest = m.remove(a[0].0);
    assert forall|i: int, j: int| 0 <= i < j < a1.len() implies text_lt(
        #[trigger] a1[i].0,
        #[trigger] a1[j].0,
    ) by {
        assert(text_lt(a[i + 1].0, a[j + 1].0));
    }
    assert forall|i: int| 0 <= i < a1.len() implies rest.contains_pair(
        (#[trigger] a1[i]).0,
        a1[i].1,
    ) by {
        assert(m.contains_pair(a[i + 1].0, a[i + 1].1));
        assert(text_lt(a[0].0, a[i + 1].0));
        lemma_text_lt_total(a[0].0, a[i + 1].0);
    }
    assert forall|k: Seq<char>| #[trigger] rest.dom().contains(k) implies exists|i: int|
        0 <= i < a1.len() && (#[trigger] a1[i]).0 == k by {
        assert(m.dom().contains(k));
        let i = choose|i: int| 0 <= i < a.len() && (#[trigger] a[i]).0 == k;
        assert(i > 0);
        assert(a1[i - 1].0 == k);
    }
}

/// A listing of a map is its listing by ascending key.
pub proof fn lemma_lists_ascending(pairs: Seq<TextPair>, m: Map<Seq<char>, Seq<char>>)
    requires
        lists(pairs, m),
    ensures
        ascending_pairs(m) == pairs,
{
    lemma_lists_unique(ascending_pairs(m), pairs, m);
}

/// Putting a pair with a new key at its place in a listing lists the map
/// with that pair inserted.
pub proof fn lemma_lists_insert(
    pairs: Seq<TextPair>,
    m: Map<Seq<char>, Seq<char>>,
    at: int,
    key: Seq<char>,
    value: Seq<char>,
)
    requires
        lists(pairs, m),
        0 <= at <= pairs.len(),
        forall|j: int| 0 <= j < at ==> text_lt((#[trigger] pairs[j]).0, key),
        forall|j: int| at <= j < pairs.len() ==> text_lt(key, (#[trigger] pairs[j]).0),
    ensures
        lists(pairs.insert(at, (key, value)), m.insert(key, value)),
{
    let after = pairs.insert(at, (key, value));
    let m2 = m.insert(key, value);
    assert forall|i: int, j: int| 0 <= i < j < after.len() implies text_lt(
        #[trigger] after[i].0,
        #[trigger] after[j].0,
    ) by {
        if i < at && j > at {
            assert(text_lt(pairs[i].0, key));
            assert(text_lt(key, pairs[j - 1].0));
            lemma_text_lt_transitive(pairs[i].0, key, pairs[j - 1].0);
        } else if i < at && j < at {
            assert(text_lt(pairs[i].0, pairs[j].0));
        } else if i > at {
            assert(text_lt(pairs[i - 1].0, pairs[j - 1].0));
        }
    }
    assert forall|i: int| 0 <= i < after.len() implies m2.contains_pair(
        (#[trigger] after[i]).0,
        after[i].1,
    ) by {
        if i < at {
            assert(m.contains_pair(pairs[i].0, pairs[i].1));
            lemma_text_lt_total(pairs[i].0, key);
        } else if i > at {
            assert(m.contains_pair(pairs[i - 1].0, pairs[i - 1].1));
            assert(text_lt(key, pairs[i - 1].0));
            lemma_text_lt_total(pairs[i - 1].0, key);
        }
    }
    assert forall|k: Seq<char>| #[trigger] m2.dom().contains(k) implies exists|i: int|
        0 <= i < after.len() && (#[trigger] after[i]).0 == k by {
        if k == key {
            assert(after[at].0 == k);
        } else {
            assert(m.dom().contains(k));
            let i = choose|i: int| 0 <= i < pairs.len() && (#[trigger] pairs[i]).0 == k;
            if i < at {
                assert(after[i].0 == k);
            } else {
                assert(after[i + 1].0 == k);
            }
        }
    }
}

/// Giving the key of a listed pair a new value lists the map with that pair
/// inserted.
pub proof fn lemma_lists_replace(
    pairs: Seq<TextPair>,
    m: Map<Seq<char>, Seq<char>>,
    at: int,
    value: Seq<char>,
)
    requires
        lists(pairs, m),
        0 <= at < pairs.len(),
    ensures
        lists(pairs.update(at, (pairs[at].0, value)), m.insert(pairs[at].0, value)),
{
    let key = pairs[at].0;
    let after = pairs.update(at, (key, value));
    let m2 = m.insert(key, value);
    assert forall|i: int, j: int| 0 <= i < j < after.len() implies text_lt(
        #[trigger] after[i].0,
        #[trigger] after[j].0,
    ) by {
        assert(text_lt(pairs[i].0, pairs[j].0));
    }
    assert forall|i: int| 0 <= i < after.len() implies m2.contains_pair(
        (#[trigger] after[i]).0,
        after[i].1,
    ) by {
        if i != at {
            assert(m.contains_pair(pairs[i].0, pairs[i].1));
            if i < at {
                assert(text_lt(pairs[i].0, pairs[at].0));
            } else {
                assert(text_lt(pairs[at].0, pairs[i].0));
            }
            lemma_text_lt_total(pairs[i].0, key);
        }
    }
    assert forall|k: Seq<char>| #[trigger] m2.dom().contains(k) implies exists|i: int|
        0 <= i < after.len() && (#[trigger] after[i]).0 == k by {
        if k == key {
            assert(after[at].0 == k);
        } else {
            assert(m.dom().contains(k));
            let i = choose|i: int| 0 <= i < pairs.len() && (#[trigger] pairs[i]).0 == k;
            assert(after[i].0 == k);
        }
    }
}

/// A map from key text to value text that hands its pairs out by ascending
/// key.
pub struct OrderedPairs {
    entries: Vec<(String, String)>,
    model: Ghost<Map<Seq<char>, Seq<char>>>,
}

impl View for OrderedPairs {
    type V = Map<Seq<char>, Seq<char>>;

    closed spec fn view(&self) -> Map<Seq<char>, Seq<char>> {
        self.model@
    }
}

impl OrderedPairs {
    /// The stored pairs as text, in the order in which they are stored.
    spec fn stored(&self) -> Seq<TextPair> {
        Seq::new(self.entries@.len(), |i: int| (self.entries@[i].0@, self.entries@[i].1@))
    }

    /// The invariant of the type: the stored pairs are the map's pairs by
    /// ascending key.
    pub closed spec fn wf(&self) -> bool {
        lists(self.stored(), self.model@)
    }

    /// An empty map.
    pub fn new() -> (m: OrderedPairs)
        ensures
            m.wf(),
            m@ == Map::<Seq<char>, Seq<char>>::empty(),
    {
        OrderedPairs { entries: Vec::new(), model: Ghost(Map::empty()) }
    }

    /// The number of pairs.
    pub fn len(&self) -> (n: usize)
        requires
            self.wf(),
        ensures
            n == ascending_pairs(self@).len(),
    {
        proof {
            lemma_lists_ascending(self.stored(), self@);
        }
        self.entries.len()
    }

    /// The key of the pair at place `i`, counted by ascending key.
    pub fn key(&self, i: usize) -> (key: &str)
        requires
            self.wf(),
            i < ascending_pairs(self@).len(),
        ensures
            key@ == ascending_pairs(self@)[i as int].0,
    {
        proof {
            lemma_lists_ascending(self.stored(), self@);
        }
        self.entries[i].0.as_str()
    }

    /// The value of the pair at place `i`, counted by ascending key.
    pub fn value(&self, i: usize) -> (value: &str)
        requires
            self.wf(),
            i < ascending_pairs(self@).len(),
        ensures
            value@ == ascending_pairs(self@)[i as int].1,
    {
        proof {
            lemma_lists_ascending(self.stored(), self@);
        }
        self.entries[i].1.as_str()
    }

    /// Maps `key` to `value`. A value that `key` had before is replaced.
    pub fn insert(&mut self, key: String, value: String)
        requires
            old(self).wf(),
        ensures
            final(self).wf(),
            final(self)@ == old(self)@.insert(key@, value@),
    {
        let ghost before = self.stored();
        let ghost k = key@;
        let ghost v = value@;
        let mut at: usize = 0;
        let mut passed = false;
        while !passed && at < self.entries.len()
            invariant
                at <= self.entries@.len(),
                *self == *old(self),
                before == self.stored(),
                lists(before, self.model@),
                k == key@,
                v == value@,
                forall|j: int| 0 <= j < at ==> text_lt((#[trigger] before[j]).0, k),
                passed ==> at < before.len() && text_lt(k, before[at as int].0),
            decreases self.entries@.len() - at, (if passed { 0int } else { 1int }),
        {
            match compare_text(self.entries[at].0.as_str(), key.as_str()) {
                Order::Before => {
                    at = at + 1;
                },
                Order::Same => {
                    self.model = Ghost(self.model@.insert(k, v));
                    self.entries.set(at, (key, value));
                    proof {
                        lemma_lists_replace(before, old(self).model@, at as int, v);
                        assert(self.stored() =~= before.update(at as int, (k, v)));
                    }
                    return ;
                },
                Order::After => {
                    passed = true;
                },
            }
        }
        self.model = Ghost(self.model@.insert(k, v));
        self.entries.insert(at, (key, value));
        proof {
            assert forall|j: int| at <= j < before.len() implies text_lt(
                k,
                (#[trigger] before[j]).0,
            ) by {
                if j > at {
                    assert(text_lt(before[at as int].0, before[j].0));
                    lemma_text_lt_transitive(k, before[at as int].0, before[j].0);
                }
            }
            lemma_lists_insert(before, old(self).model@, at as int, k, v);
            assert(self.stored() =~= before.insert(at as int, (k, v)));
        }
    }
}

} // verus!
