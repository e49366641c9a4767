//! The order in which things are drawn: higher render priority first, and
//! among equal priorities, in the order they were listed.
use vstd::prelude::*;

verus! {

/// Item `a` of a list with `priorities` is drawn before item `b`: it has a
/// higher priority, or the same priority and comes earlier in the list.
pub open spec fn drawn_before(priorities: Seq<i32>, a: int, b: int) -> bool {
    priorities[a] > priorities[b] || (priorities[a] == priorities[b] && a < b)
}

/// `order` lists each index of `priorities` once, in drawing order.
pub open spec fn is_draw_order(priorities: Seq<i32>, order: Seq<usize>) -> bool {
    &&& order.len() == priorities.len()
    &&& forall|i: int| 0 <= i < order.len() ==> #[trigger] order[i] < priorities.len()
    &&& forall|i: int, j: int|
        0 <= i < j < order.len() ==> drawn_before(priorities, #[trigger] order[i] as int, #[trigger] order[j] as int)
}

/// The indices of `priorities` in drawing order: by priority, highest first,
/// keeping the list's order among equal priorities (the order a stable sort
/// by descending priority gives).
pub fn draw_order(priorities: &Vec<i32>) -> (order: Vec<usize>)
    ensures
        is_draw_order(priorities@, order@),
        forall|k: int| 0 <= k < priorities@.len() ==> #[trigger] order@.contains(k as usize),
{
    let n = priorities.len();
    let mut order: Vec<usize> = Vec::new();
    for k in 0..n
        invariant
            n == priorities@.len(),
            order@.len() == k,
            forall|i: int| 0 <= i < order@.len() ==> #[trigger] order@[i] < k,
            forall|i: int, j: int|
                0 <= i < j < order@.len() ==> drawn_before(
                    priorities@,
                    #[trigger] order@[i] as int,
                    #[trigger] order@[j] as int,
                ),
            forall|m: int| 0 <= m < k ==> #[trigger] order@.contains(m as usize),
    {
        let p = priorities[k];
        let mut at: usize = 0;
        while at < order.len() && priorities[order[at]] >= p
            invariant
                n == priorities@.len(),
                k < n,
                p == priorities@[k as int],
                0 <= at <= order@.len(),
                forall|i: int| 0 <= i < order@.len() ==> #[trigger] order@[i] < k,
                forall|i: int| 0 <= i < at ==> priorities@[#[trigger] order@[i] as int] >= p,
            decreases order@.len() - at,
        {
            at = at + 1;
        }
        let ghost before = order@;
        proof {
            assert forall|i: int| at <= i < before.len() implies priorities@[#[trigger] before[i] as int] < p by {
                if at < before.len() {
                    assert(priorities@[before[at as int] as int] < p);
                    if i > at {
                        assert(drawn_before(priorities@, before[at as int] as int, before[i] as int));
                    }
                }
            }
        }
        order.insert(at, k);
        proof {
            assert(order@ == before.insert(at as int, k));
            assert forall|i: int, j: int|
                0 <= i < j < order@.len() implies drawn_before(
                priorities@,
                #[trigger] order@[i] as int,
                #[trigger] order@[j] as int,
            ) by {
                if i < at && j < at {
                    assert(order@[i] == before[i] && order@[j] == before[j]);
                } else if i < at && j == at {
                    assert(order@[i] == before[i]);
                } else if i < at && j > at {
                    assert(order@[i] == before[i] && order@[j] == before[j - 1]);
                } else if i == at {
                    assert(order@[j] == before[j - 1]);
                } else {
                    assert(order@[i] == before[i - 1] && order@[j] == before[j - 1]);
                }
            }
            assert forall|m: int| 0 <= m < k + 1 implies #[trigger] order@.contains(m as usize) by {
                if m == k {
                    assert(order@[at as int] == k);
                } else {
                    assert(before.contains(m as usize));
                    let i = choose|i: int| 0 <= i < before.len() && before[i] == m as usize;
                    if i < at {
                        assert(order@[i] == before[i]);
                    } else {
                        assert(order@[i + 1] == before[i]);
                    }
                }
            }
            assert forall|i: int| 0 <= i < order@.len() implies #[trigger] order@[i] < k + 1 by {
                if i < at {
                    assert(order@[i] == before[i]);
                } else if i > at {
                    assert(order@[i] == before[i - 1]);
                }
            }
        }
    }
    order
}

} // verus!
