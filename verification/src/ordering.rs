//! Ranking by two keys: the first key descending, the second ascending, and
//! what ties on both in the order in which it came.

use crate::fixed::Fixed;
use vstd::prelude::*;

verus! {

/// The keys by which an item is ranked.
#[derive(Clone, Copy, Debug, PartialEq, Eq, Structural)]
pub struct SortKey {
    /// The larger comes first.
    pub major: Fixed,
    /// Among equal major keys, the smaller comes first.
    pub minor: Fixed,
}

/// An item of key `a` comes before an item of key `b` wherever the two stand.
pub open spec fn key_before(a: SortKey, b: SortKey) -> bool {
    a.major.raw > b.major.raw || (a.major.raw == b.major.raw && a.minor.raw < b.minor.raw)
}

/// The item at position `a` comes before the item at position `b`: by its
/// keys, or on equal keys by its position.
pub open spec fn comes_before(keys: Seq<SortKey>, a: int, b: int) -> bool {
    key_before(keys[a], keys[b]) || (keys[a] == keys[b] && a < b)
}

/// The position `p` stands somewhere in `order`.
pub open spec fn lists(order: Seq<usize>, p: int) -> bool {
    exists|i: int| 0 <= i < order.len() && #[trigger] order[i] == p
}

/// `order` lists every position of `keys` once, each before all that come
/// after it.
pub open spec fn is_ranking(keys: Seq<SortKey>, order: Seq<usize>) -> bool {
    &&& order.len() == keys.len()
    &&& forall|i: int| 0 <= i < order.len() ==> 0 <= #[trigger] order[i] < keys.len()
    &&& forall|i: int, j: int|
        0 <= i < j < order.len() ==> comes_before(keys, #[trigger] order[i] as int, #[trigger] order[j] as int)
    &&& forall|p: int| 0 <= p < keys.len() ==> #[trigger] lists(order, p)
}

/// Where a new item goes into a ranked list: behind the last item that comes
/// before it.
pub open spec fn insert_position(keys: Seq<SortKey>, order: Seq<usize>, item: int) -> int
    decreases order.len(),
{
    if order.len() == 0 {
        0
    } else if comes_before(keys, order.last() as int, item) {
        order.len() as int
    } else {
        insert_position(keys, order.drop_last(), item)
    }
}

/// The ranking of the positions of `keys`.
pub open spec fn ranking(keys: Seq<SortKey>) -> Seq<usize>
    decreases keys.len(),
{
    if keys.len() == 0 {
        Seq::<usize>::empty()
    } else {
        let rest = ranking(keys.drop_last());
        let item = keys.len() - 1;
        rest.insert(insert_position(keys, rest, item), item as usize)
    }
}

proof fn lemma_insert_position(keys: Seq<SortKey>, order: Seq<usize>, item: int)
    requires
        0 <= item < keys.len(),
        forall|i: int| 0 <= i < order.len() ==> 0 <= #[trigger] order[i] < item,
        forall|i: int, j: int|
            0 <= i < j < order.len() ==> comes_before(keys, #[trigger] order[i] as int, #[trigger] order[j] as int),
    ensures
        0 <= insert_position(keys, order, item) <= order.len(),
        forall|i: int|
            0 <= i < insert_position(keys, order, item) ==> comes_before(
                keys,
                #[trigger] order[i] as int,
                item,
            ),
        forall|i: int|
            insert_position(keys, order, item) <= i < order.len() ==> comes_before(
                keys,
                item,
                #[trigger] order[i] as int,
            ),
    decreases order.len(),
{
    if order.len() > 0 {
        let last = order.last() as int;
        if comes_before(keys, last, item) {
            assert forall|i: int| 0 <= i < order.len() implies comes_before(
                keys,
                #[trigger] order[i] as int,
                item,
            ) by {
                if i < order.len() - 1 {
                    assert(comes_before(keys, order[i] as int, order[order.len() - 1] as int));
                }
            }
        } else {
            let front = order.drop_last();
            assert forall|i: int, j: int| 0 <= i < j < front.len() implies comes_before(
                keys,
                #[trigger] front[i] as int,
                #[trigger] front[j] as int,
            ) by {
                assert(front[i] == order[i] && front[j] == order[j]);
            }
            lemma_insert_position(keys, front, item);
            let p = insert_position(keys, front, item);
            assert forall|i: int| p <= i < order.len() implies comes_before(
                keys,
                item,
                #[trigger] order[i] as int,
            ) by {
                if i < order.len() - 1 {
                    assert(front[i] == order[i]);
                }
            }
            assert forall|i: int| 0 <= i < p implies comes_before(
                keys,
                #[trigger] order[i] as int,
                item,
            ) by {
                assert(front[i] == order[i]);
            }
        }
    }
}

/// The ranking lists every position once, each before all that come after
/// it: it is sorted by the keys, and what ties keeps its order.
pub proof fn lemma_ranking(keys: Seq<SortKey>)
    requires
        keys.len() <= usize::MAX,
    ensures
        is_ranking(keys, ranking(keys)),
    decreases keys.len(),
{
    if keys.len() > 0 {
        let front = keys.drop_last();
        let rest = ranking(front);
        let item = keys.len() - 1;
        lemma_ranking(front);
        assert forall|i: int, j: int| 0 <= i < j < rest.len() implies comes_before(
            keys,
            #[trigger] rest[i] as int,
            #[trigger] rest[j] as int,
        ) by {
            assert(comes_before(front, rest[i] as int, rest[j] as int));
        }
        lemma_insert_position(keys, rest, item);
        let p = insert_position(keys, rest, item);
        let order = rest.insert(p, item as usize);
        assert forall|i: int, j: int| 0 <= i < j < order.len() implies comes_before(
            keys,
            #[trigger] order[i] as int,
            #[trigger] order[j] as int,
        ) by {
            if j < p {
                assert(order[i] == rest[i] && order[j] == rest[j]);
            } else if j == p {
                assert(order[i] == rest[i]);
            } else if i < p {
                assert(order[i] == rest[i] && order[j] == rest[j - 1]);
            } else if i == p {
                assert(order[j] == rest[j - 1]);
            } else {
                assert(order[i] == rest[i - 1] && order[j] == rest[j - 1]);
            }
        }
        assert forall|q: int| 0 <= q < keys.len() implies #[trigger] lists(order, q) by {
            if q == item {
                assert(order[p] == q);
            } else {
                assert(lists(rest, q));
                let i = choose|i: int| 0 <= i < rest.len() && #[trigger] rest[i] == q;
                if i < p {
                    assert(order[i] == q);
                } else {
                    assert(order[i + 1] == q);
                }
            }
        }
        assert forall|i: int| 0 <= i < order.len() implies 0 <= #[trigger] order[i] < keys.len() by {
            if i < p {
                assert(order[i] == rest[i]);
            } else if i > p {
                assert(order[i] == rest[i - 1]);
            }
        }
    }
}

/// Tells whether the item at position `a` comes before the item at
/// position `b`.
fn ranks_before(keys: &Vec<SortKey>, a: usize, b: usize) -> (r: bool)
    requires
        a < keys@.len(),
        b < keys@.len(),
    ensures
        r == comes_before(keys@, a as int, b as int),
{
    let ka = keys[a];
    let kb = keys[b];
    if ka.major.raw != kb.major.raw {
        ka.major.raw > kb.major.raw
    } else if ka.minor.raw != kb.minor.raw {
        ka.minor.raw < kb.minor.raw
    } else {
        a < b
    }
}

/// Ranks the positions of `keys`.
pub fn rank(keys: &Vec<SortKey>) -> (order: Vec<usize>)
    ensures
        order@ == ranking(keys@),
        is_ranking(keys@, order@),
{
    let mut order: Vec<usize> = Vec::new();
    let mut n: usize = 0;
    while n < keys.len()
        invariant
            n <= keys@.len(),
            order@ == ranking(keys@.take(n as int)),
            order@.len() == n,
            forall|i: int| 0 <= i < order@.len() ==> 0 <= #[trigger] order@[i] < n,
        decreases keys@.len() - n,
    {
        let ghost prefix = keys@.take(n + 1);
        let ghost rest = order@;
        proof {
            assert(prefix.drop_last() =~= keys@.take(n as int));
        }
        let mut p: usize = order.len();
        assert(rest.take(p as int) =~= rest);
        while p > 0 && !ranks_before(keys, order[p - 1], n)
            invariant
                n < keys@.len(),
                prefix == keys@.take(n + 1),
                order@ == rest,
                p <= order@.len(),
                forall|i: int| 0 <= i < order@.len() ==> 0 <= #[trigger] order@[i] < n,
                insert_position(prefix, rest, n as int) == insert_position(
                    prefix,
                    rest.take(p as int),
                    n as int,
                ),
            decreases p,
        {
            proof {
                let part = rest.take(p as int);
                assert(part.last() == rest[p - 1]);
                assert(part.drop_last() =~= rest.take(p - 1));
                assert(comes_before(prefix, rest[p - 1] as int, n as int) == comes_before(
                    keys@,
                    rest[p - 1] as int,
                    n as int,
                ));
            }
            p -= 1;
        }
        proof {
            let part = rest.take(p as int);
            if p > 0 {
                assert(part.last() == rest[p - 1]);
                assert(comes_before(prefix, rest[p - 1] as int, n as int) == comes_before(
                    keys@,
                    rest[p - 1] as int,
                    n as int,
                ));
            }
            assert(insert_position(prefix, part, n as int) == p);
        }
        order.insert(p, n);
        proof {
            assert forall|i: int| 0 <= i < order@.len() implies 0 <= #[trigger] order@[i] < n + 1 by {
                if i < p {
                    assert(order@[i] == rest[i]);
                } else if i > p {
                    assert(order@[i] == rest[i - 1]);
                }
            }
        }
        n += 1;
    }
    proof {
        assert(keys@.take(n as int) =~= keys@);
        lemma_ranking(keys@);
    }
    order
}

} // verus!
