//! Stable ranking by key.
//!
//! To rank a sequence of keys is to list its positions so that the keys
//! ascend and, among equal keys, the positions do. There is exactly one such
//! list for every sequence of keys.

use vstd::prelude::*;
use vstd::set_lib::lemma_int_range;
use vstd::set_lib::lemma_subset_equality;
use vstd::set_lib::set_int_range;

verus! {

/// Whether position `a` comes before position `b` in the ranking of `keys`:
/// its key is smaller, or the keys are equal and `a` is the earlier position.
pub open spec fn ranks_before(keys: Seq<int>, a: int, b: int) -> bool {
    keys[a] < keys[b] || (keys[a] == keys[b] && a < b)
}

/// Whether `order` is the ranking of `keys`: as long as `keys`, made of
/// positions in `keys`, each coming before all that follow it.
pub open spec fn is_ranking(keys: Seq<int>, order: Seq<int>) -> bool {
    &&& order.len() == keys.len()
    &&& forall|i: int| 0 <= i < order.len() ==> 0 <= #[trigger] order[i] < keys.len()
    &&& forall|i: int, j: int|
        0 <= i < j < order.len() ==> ranks_before(keys, #[trigger] order[i], #[trigger] order[j])
}

/// The ranking of `keys`.
pub open spec fn ranking(keys: Seq<int>) -> Seq<int> {
    choose|order: Seq<int>| is_ranking(keys, order)
}

/// The keys as integers.
pub open spec fn key_values(keys: Seq<i64>) -> Seq<int> {
    keys.map_values(|key: i64| key as int)
}

/// The positions as integers.
pub open spec fn positions(order: Seq<usize>) -> Seq<int> {
    order.map_values(|position: usize| position as int)
}

/// Every sequence of keys has a ranking: the keys ascend along it, equal
/// keys stand in the order of their positions.
pub proof fn lemma_ranking_exists(keys: Seq<int>)
    ensures
        is_ranking(keys, ranking(keys)),
    decreases keys.len(),
{
    if keys.len() == 0 {
        assert(is_ranking(keys, Seq::<int>::empty()));
    } else {
        let front = keys.drop_last();
        lemma_ranking_exists(front);
        let order = ranking(front);
        let place = place_of(front, order, keys.last());
        lemma_place_of(front, order, keys.last());
        lemma_insert_keeps_ranking(keys, order, place);
        assert(is_ranking(keys, order.insert(place, keys.len() - 1)));
    }
}

/// A sequence of keys has one ranking only.
pub proof fn lemma_ranking_unique(keys: Seq<int>, order: Seq<int>)
    requires
        is_ranking(keys, order),
    ensures
        order == ranking(keys),
{
    lemma_ranking_exists(keys);
    lemma_rankings_agree(keys, order, ranking(keys), keys.len() as int);
    assert(order =~= ranking(keys));
}

/// A ranking holds every position once: it rearranges, and neither drops nor
/// repeats.
pub proof fn lemma_ranking_is_rearrangement(keys: Seq<int>, order: Seq<int>)
    requires
        is_ranking(keys, order),
    ensures
        order.no_duplicates(),
        forall|position: int| 0 <= position < keys.len() ==> order.contains(position),
{
    assert forall|i: int, j: int| 0 <= i < order.len() && 0 <= j < order.len() && i != j implies order[i]
        != order[j] by {
        if i < j {
            assert(ranks_before(keys, order[i], order[j]));
        } else {
            assert(ranks_before(keys, order[j], order[i]));
        }
    }
    let all = set_int_range(0, keys.len() as int);
    lemma_int_range(0, keys.len() as int);
    order.unique_seq_to_set();
    assert forall|position: int| order.to_set().contains(position) implies all.contains(
        position,
    ) by {
        let i = choose|i: int| 0 <= i < order.len() && order[i] == position;
        assert(0 <= order[i] < keys.len());
    }
    assert(order.to_set().subset_of(all));
    vstd::set_lib::lemma_set_subset_finite(all, order.to_set());
    lemma_subset_equality(order.to_set(), all);
    assert forall|position: int| 0 <= position < keys.len() implies order.contains(position) by {
        assert(all.contains(position));
        assert(order.to_set().contains(position));
    }
}

/// The place at which a new key enters a ranking: behind every position
/// whose key is not larger. Meant for an `order` along which the keys ascend.
spec fn place_of(keys: Seq<int>, order: Seq<int>, key: int) -> int
    decreases order.len(),
{
    if order.len() == 0 {
        0
    } else if keys[order.last()] <= key {
        order.len() as int
    } else {
        place_of(keys, order.drop_last(), key)
    }
}

proof fn lemma_place_of(keys: Seq<int>, order: Seq<int>, key: int)
    requires
        is_ranking(keys, order),
    ensures
        0 <= place_of(keys, order, key) <= order.len(),
        forall|i: int| 0 <= i < place_of(keys, order, key) ==> keys[#[trigger] order[i]] <= key,
        forall|i: int|
            place_of(keys, order, key) <= i < order.len() ==> keys[#[trigger] order[i]] > key,
{
    lemma_place_in_prefix(keys, order, order.len() as int, key);
    assert(order.take(order.len() as int) == order);
}

proof fn lemma_place_in_prefix(keys: Seq<int>, order: Seq<int>, upto: int, key: int)
    requires
        is_ranking(keys, order),
        0 <= upto <= order.len(),
    ensures
        0 <= place_of(keys, order.take(upto), key) <= upto,
        forall|i: int|
            0 <= i < place_of(keys, order.take(upto), key) ==> keys[#[trigger] order[i]] <= key,
        forall|i: int|
            place_of(keys, order.take(upto), key) <= i < upto ==> keys[#[trigger] order[i]] > key,
    decreases upto,
{
    let prefix = order.take(upto);
    if upto > 0 {
        assert(prefix.last() == order[upto - 1]);
        if keys[prefix.last()] <= key {
            assert forall|i: int| 0 <= i < upto implies keys[#[trigger] order[i]] <= key by {
                if i < upto - 1 {
                    assert(ranks_before(keys, order[i], order[upto - 1]));
                }
            }
        } else {
            assert(prefix.drop_last() == order.take(upto - 1));
            lemma_place_in_prefix(keys, order, upto - 1, key);
        }
    }
}

/// Entering the last position of `keys` at its place into the ranking of the
/// keys before it gives the ranking of `keys`.
proof fn lemma_insert_keeps_ranking(keys: Seq<int>, order: Seq<int>, place: int)
    requires
        keys.len() > 0,
        is_ranking(keys.drop_last(), order),
        0 <= place <= order.len(),
        forall|i: int| 0 <= i < place ==> keys[#[trigger] order[i]] <= keys.last(),
        forall|i: int| place <= i < order.len() ==> keys[#[trigger] order[i]] > keys.last(),
    ensures
        is_ranking(keys, order.insert(place, keys.len() - 1)),
{
    let front = keys.drop_last();
    let newest = keys.len() - 1;
    let grown = order.insert(place, newest);
    assert forall|i: int| 0 <= i < grown.len() implies 0 <= #[trigger] grown[i] < keys.len() by {
        if i < place {
            assert(grown[i] == order[i]);
        } else if i > place {
            assert(grown[i] == order[i - 1]);
        }
    }
    assert forall|i: int, j: int| 0 <= i < j < grown.len() implies ranks_before(
        keys,
        #[trigger] grown[i],
        #[trigger] grown[j],
    ) by {
        if j < place {
            assert(grown[i] == order[i] && grown[j] == order[j]);
            assert(ranks_before(front, order[i], order[j]));
        } else if j == place {
            assert(grown[i] == order[i]);
            assert(keys[order[i]] <= keys.last());
        } else if i < place {
            assert(grown[i] == order[i] && grown[j] == order[j - 1]);
            assert(ranks_before(front, order[i], order[j - 1]));
        } else if i == place {
            assert(grown[j] == order[j - 1]);
            assert(keys[order[j - 1]] > keys.last());
        } else {
            assert(grown[i] == order[i - 1] && grown[j] == order[j - 1]);
            assert(ranks_before(front, order[i - 1], order[j - 1]));
        }
    }
}

/// Two rankings of the same keys agree on their first `upto` entries.
proof fn lemma_rankings_agree(keys: Seq<int>, first: Seq<int>, second: Seq<int>, upto: int)
    requires
        is_ranking(keys, first),
        is_ranking(keys, second),
        0 <= upto <= keys.len(),
    ensures
        forall|i: int| 0 <= i < upto ==> first[i] == second[i],
    decreases upto,
{
    if upto > 0 {
        lemma_rankings_agree(keys, first, second, upto - 1);
        let at = upto - 1;
        lemma_ranking_is_rearrangement(keys, first);
        lemma_ranking_is_rearrangement(keys, second);
        assert(0 <= first[at] < keys.len());
        assert(0 <= second[at] < keys.len());
        lemma_entry_not_before(keys, first, second, at);
        lemma_entry_not_before(keys, second, first, at);
    }
}

/// Where two rankings agree before `at`, the entry of the one at `at` does
/// not come before the entry of the other.
proof fn lemma_entry_not_before(keys: Seq<int>, first: Seq<int>, second: Seq<int>, at: int)
    requires
        is_ranking(keys, first),
        is_ranking(keys, second),
        0 <= at < keys.len(),
        forall|i: int| 0 <= i < at ==> first[i] == second[i],
        first.no_duplicates(),
        second.contains(first[at]),
    ensures
        !ranks_before(keys, first[at], second[at]),
{
    let found = choose|j: int| 0 <= j < second.len() && second[j] == first[at];
    if found < at {
        assert(first[found] == second[found]);
        assert(first[found] == first[at]);
    } else if found > at {
        assert(ranks_before(keys, second[at], second[found]));
    }
}

/// Ranks the keys: the positions of `keys` in ascending order of key, equal
/// keys in the order of their positions.
pub fn rank(keys: &Vec<i64>) -> (order: Vec<usize>)
    ensures
        positions(order@) == ranking(key_values(keys@)),
{
    let ghost values = key_values(keys@);
    let mut order: Vec<usize> = Vec::new();
    let mut next: usize = 0;
    proof {
        assert(values.take(0) == Seq::<int>::empty());
        assert(is_ranking(values.take(0), positions(order@)));
    }
    while next < keys.len()
        invariant
            0 <= next <= keys.len(),
            values == key_values(keys@),
            is_ranking(values.take(next as int), positions(order@)),
            forall|i: int| 0 <= i < order.len() ==> (#[trigger] order@[i]) < next,
        decreases keys.len() - next,
    {
        let key: i64 = keys[next];
        let ghost before = positions(order@);
        let ghost ranked = values.take(next as int);
        assert(values[next as int] == key);
        let mut place: usize = order.len();
        while place > 0 && keys[order[place - 1]] > key
            invariant
                0 <= place <= order.len(),
                order.len() == next,
                next < keys.len(),
                values == key_values(keys@),
                values[next as int] == key,
                before == positions(order@),
                ranked == values.take(next as int),
                is_ranking(ranked, before),
                forall|i: int| 0 <= i < order.len() ==> (#[trigger] order@[i]) < next,
                forall|i: int| place <= i < order.len() ==> values[#[trigger] before[i]] > key,
            decreases place,
        {
            proof {
                let i = place as int - 1;
                assert(0 <= before[i] < ranked.len());
                assert(values[before[i]] == keys@[order@[i] as int]);
            }
            place = place - 1;
        }
        proof {
            let grown_keys = values.take(next as int + 1);
            assert(grown_keys.drop_last() == ranked);
            assert(grown_keys.last() == key);
            assert forall|i: int| 0 <= i < place implies grown_keys[#[trigger] before[i]] <= key by {
                assert(0 <= before[i] < ranked.len());
                if i < place - 1 {
                    assert(ranks_before(ranked, before[i], before[place - 1]));
                }
                assert(0 <= before[place - 1] < ranked.len());
                assert(values[before[place - 1]] == keys@[order@[place - 1] as int]);
            }
            assert forall|i: int| place <= i < before.len() implies grown_keys[#[trigger] before[i]]
                > key by {
                assert(0 <= before[i] < ranked.len());
            }
            lemma_insert_keeps_ranking(grown_keys, before, place as int);
        }
        order.insert(place, next);
        assert(positions(order@) == before.insert(place as int, next as int));
        next = next + 1;
    }
    proof {
        assert(values.take(keys.len() as int) == values);
        lemma_ranking_unique(values, positions(order@));
    }
    order
}

} // verus!
