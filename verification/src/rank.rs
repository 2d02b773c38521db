//! Stable ranking: the order in which items come when sorted by a key from
//! high to low, items of equal key keeping their original order.

use vstd::prelude::*;

verus! {

/// How many leading positions of `order` point at keys of at least `k`.
pub open spec fn lead_len(keys: Seq<u64>, order: Seq<usize>, k: u64) -> nat
    decreases order.len(),
{
    if order.len() == 0 {
        0
    } else if keys[order[0] as int] >= k {
        1 + lead_len(keys, order.drop_first(), k)
    } else {
        0
    }
}

/// The positions of `keys` from the highest key to the lowest; of two equal
/// keys the earlier position comes first.
pub open spec fn rank_order(keys: Seq<u64>) -> Seq<usize>
    decreases keys.len(),
{
    if keys.len() == 0 {
        Seq::empty()
    } else {
        let front = keys.drop_last();
        let before = rank_order(front);
        before.insert(lead_len(front, before, keys.last()) as int, (keys.len() - 1) as usize)
    }
}

/// `order` holds each position of `keys` once, from high key to low, equal
/// keys in their original order.
pub open spec fn ranked(keys: Seq<u64>, order: Seq<usize>) -> bool {
    &&& order.len() == keys.len()
    &&& forall|a: int| 0 <= a < order.len() ==> (#[trigger] order[a]) < keys.len()
    &&& forall|a: int, b: int|
        0 <= a < b < order.len() ==> #[trigger] order[a] != #[trigger] order[b]
    &&& forall|a: int, b: int|
        0 <= a < b < order.len() ==> keys[#[trigger] order[a] as int] >= keys[#[trigger] order[b] as int]
    &&& forall|a: int, b: int|
        0 <= a < b < order.len() && keys[#[trigger] order[a] as int] == keys[#[trigger] order[b] as int]
            ==> order[a] < order[b]
}

/// In a list that runs from high key to low, `lead_len` is where the keys
/// drop below `k`.
pub proof fn lemma_lead_len(keys: Seq<u64>, order: Seq<usize>, k: u64)
    requires
        forall|a: int| 0 <= a < order.len() ==> (#[trigger] order[a]) < keys.len(),
        forall|a: int, b: int|
            0 <= a < b < order.len() ==> keys[#[trigger] order[a] as int] >= keys[#[trigger] order[b] as int],
    ensures
        lead_len(keys, order, k) <= order.len(),
        forall|a: int| 0 <= a < lead_len(keys, order, k) ==> keys[#[trigger] order[a] as int] >= k,
        forall|a: int|
            lead_len(keys, order, k) <= a < order.len() ==> keys[#[trigger] order[a] as int] < k,
    decreases order.len(),
{
    if order.len() > 0 {
        let rest = order.drop_first();
        assert forall|a: int| 0 <= a < rest.len() implies (#[trigger] rest[a]) < keys.len() by {
            assert(rest[a] == order[a + 1]);
        }
        assert forall|a: int, b: int| 0 <= a < b < rest.len() implies keys[#[trigger] rest[a] as int]
            >= keys[#[trigger] rest[b] as int] by {
            assert(rest[a] == order[a + 1]);
            assert(rest[b] == order[b + 1]);
        }
        lemma_lead_len(keys, rest, k);
        if keys[order[0] as int] >= k {
            assert forall|a: int| 0 <= a < lead_len(keys, order, k) implies keys[#[trigger] order[a] as int]
                >= k by {
                if a > 0 {
                    assert(rest[a - 1] == order[a]);
                }
            }
            assert forall|a: int| lead_len(keys, order, k) <= a < order.len() implies keys[#[trigger] order[a] as int]
                < k by {
                assert(rest[a - 1] == order[a]);
            }
        } else {
            assert forall|a: int| 0 <= a < order.len() implies keys[#[trigger] order[a] as int]
                < k by {
                if a > 0 {
                    assert(keys[order[0] as int] >= keys[order[a] as int]);
                }
            }
        }
    }
}

/// The ranking is a stable descending sort: it holds every position once,
/// runs from high key to low, and keeps equal keys in their original order.
pub proof fn lemma_rank_order(keys: Seq<u64>)
    requires
        keys.len() <= usize::MAX,
    ensures
        ranked(keys, rank_order(keys)),
    decreases keys.len(),
{
    if keys.len() > 0 {
        let front = keys.drop_last();
        let before = rank_order(front);
        let k = keys.last();
        let n = (keys.len() - 1) as usize;
        lemma_rank_order(front);
        assert forall|a: int, b: int| 0 <= a < b < before.len() implies front[#[trigger] before[a] as int]
            >= front[#[trigger] before[b] as int] by {}
        lemma_lead_len(front, before, k);
        let pos = lead_len(front, before, k) as int;
        let order = rank_order(keys);
        assert(order == before.insert(pos, n));
        assert forall|a: int| 0 <= a < order.len() implies (#[trigger] order[a]) < keys.len() by {
            if a < pos {
                assert(order[a] == before[a]);
            } else if a > pos {
                assert(order[a] == before[a - 1]);
            }
        }
        assert forall|a: int| 0 <= a < order.len() && a != pos implies (#[trigger] order[a]) < n
            && keys[order[a] as int] == front[order[a] as int] && (a < pos ==> order[a]
            == before[a] && keys[order[a] as int] >= k) && (a > pos ==> order[a] == before[a - 1]
            && keys[order[a] as int] < k) by {
            if a < pos {
                assert(order[a] == before[a]);
            } else {
                assert(order[a] == before[a - 1]);
            }
        }
        assert(order[pos] == n);
        assert(keys[n as int] == k);
        assert forall|a: int, b: int| 0 <= a < b < order.len() implies #[trigger] order[a]
            != #[trigger] order[b] by {
            if a != pos && b != pos {
                let a0 = if a < pos { a } else { a - 1 };
                let b0 = if b < pos { b } else { b - 1 };
                assert(before[a0] != before[b0]);
            }
        }
        assert forall|a: int, b: int| 0 <= a < b < order.len() implies keys[#[trigger] order[a] as int]
            >= keys[#[trigger] order[b] as int] by {
            if a != pos && b != pos {
                let a0 = if a < pos { a } else { a - 1 };
                let b0 = if b < pos { b } else { b - 1 };
                assert(front[before[a0] as int] >= front[before[b0] as int]);
            }
        }
        assert forall|a: int, b: int|
            0 <= a < b < order.len() && keys[#[trigger] order[a] as int] == keys[#[trigger] order[b] as int] implies order[a]
            < order[b] by {
            if a != pos && b != pos {
                let a0 = if a < pos { a } else { a - 1 };
                let b0 = if b < pos { b } else { b - 1 };
                assert(front[before[a0] as int] == front[before[b0] as int]);
                assert(before[a0] < before[b0]);
            }
        }
    }
}

/// Ranks the positions of `keys` from the highest key to the lowest, equal
/// keys in their original order.
pub fn rank(keys: &Vec<u64>) -> (order: Vec<usize>)
    ensures
        order@ == rank_order(keys@),
        ranked(keys@, order@),
{
    let mut order: Vec<usize> = Vec::new();
    let mut n: usize = 0;
    assert(keys@.subrange(0, 0) =~= Seq::<u64>::empty());
    while n < keys.len()
        invariant
            n <= keys.len(),
            order@ == rank_order(keys@.subrange(0, n as int)),
        decreases keys.len() - n,
    {
        let k = keys[n];
        let ghost front = keys@.subrange(0, n as int);
        proof {
            lemma_rank_order(front);
            assert(order@.subrange(0, order.len() as int) == order@);
        }
        let mut pos: usize = 0;
        while pos < order.len() && keys[order[pos]] >= k
            invariant
                pos <= order.len(),
                n < keys.len(),
                front == keys@.subrange(0, n as int),
                ranked(front, order@),
                lead_len(front, order@, k) == pos + lead_len(
                    front,
                    order@.subrange(pos as int, order.len() as int),
                    k,
                ),
            decreases order.len() - pos,
        {
            proof {
                let tail = order@.subrange(pos as int, order.len() as int);
                assert(tail[0] == order@[pos as int]);
                assert(front[order@[pos as int] as int] == keys@[order@[pos as int] as int]);
                assert(tail.drop_first() == order@.subrange(pos + 1, order.len() as int));
            }
            pos += 1;
        }
        proof {
            let tail = order@.subrange(pos as int, order.len() as int);
            if pos < order.len() {
                assert(tail[0] == order@[pos as int]);
                assert(front[order@[pos as int] as int] == keys@[order@[pos as int] as int]);
            }
            assert(lead_len(front, tail, k) == 0);
            assert(keys@.subrange(0, n + 1).drop_last() == front);
            assert(keys@.subrange(0, n + 1).last() == k);
        }
        order.insert(pos, n);
        n += 1;
    }
    proof {
        assert(keys@.subrange(0, keys.len() as int) == keys@);
        lemma_rank_order(keys@);
    }
    order
}

} // verus!
