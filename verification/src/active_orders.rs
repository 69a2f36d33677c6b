//! The resting limit orders of an account: a list without repeated
//! identifiers, kept in ascending order of identifier.

use vstd::prelude::*;
use crate::order::Order;

verus! {

/// The identifiers ascend strictly, so none occurs twice.
pub open spec fn sorted_by_id(orders: Seq<Order>) -> bool {
    forall|i: int, j: int| 0 <= i < j < orders.len() ==> orders[i].id < orders[j].id
}

/// Some order has the identifier `id`.
pub open spec fn has_id(orders: Seq<Order>, id: u64) -> bool {
    exists|i: int| 0 <= i < orders.len() && (#[trigger] orders[i]).id == id
}

/// The index of the last order with the identifier `id`, or `-1` if there is none.
pub open spec fn index_of_id(orders: Seq<Order>, id: u64) -> int
    decreases orders.len(),
{
    if orders.len() == 0 {
        -1
    } else if orders.last().id == id {
        orders.len() - 1
    } else {
        index_of_id(orders.drop_last(), id)
    }
}

/// The orders without the one that has the identifier `id`.
pub open spec fn removed(orders: Seq<Order>, id: u64) -> Seq<Order> {
    if index_of_id(orders, id) < 0 {
        orders
    } else {
        orders.remove(index_of_id(orders, id))
    }
}

/// The number of orders whose identifier is below `id`.
pub open spec fn rank(orders: Seq<Order>, id: u64) -> int
    decreases orders.len(),
{
    if orders.len() == 0 {
        0
    } else {
        rank(orders.drop_last(), id) + if orders.last().id < id {
            1int
        } else {
            0int
        }
    }
}

/// The orders with `o` put where its identifier belongs.
pub open spec fn inserted(orders: Seq<Order>, o: Order) -> Seq<Order> {
    orders.insert(rank(orders, o.id), o)
}

/// The orders with `o` in place of any order that has the same identifier.
pub open spec fn with_order(orders: Seq<Order>, o: Order) -> Seq<Order> {
    inserted(removed(orders, o.id), o)
}

/// The index of an identifier is that of an order which has it, if any has.
pub proof fn lemma_index_of_id(orders: Seq<Order>, id: u64)
    ensures
        -1 <= index_of_id(orders, id) < orders.len(),
        index_of_id(orders, id) >= 0 ==> orders[index_of_id(orders, id)].id == id,
        index_of_id(orders, id) < 0 <==> !has_id(orders, id),
    decreases orders.len(),
{
    if orders.len() == 0 {
    } else if orders.last().id == id {
        assert(orders[orders.len() - 1].id == id);
    } else {
        let init = orders.drop_last();
        lemma_index_of_id(init, id);
        if index_of_id(init, id) >= 0 {
            let k = index_of_id(init, id);
            assert(orders[k] == init[k]);
        } else {
            if has_id(orders, id) {
                let k = choose|k: int| 0 <= k < orders.len() && (#[trigger] orders[k]).id == id;
                assert(init[k] == orders[k]);
                assert(has_id(init, id));
            }
        }
    }
}

/// In a list without repeated identifiers, an order is found at its own index.
pub proof fn lemma_index_of_id_unique(orders: Seq<Order>, i: int)
    requires
        sorted_by_id(orders),
        0 <= i < orders.len(),
    ensures
        index_of_id(orders, orders[i].id) == i,
{
    lemma_index_of_id(orders, orders[i].id);
    let k = index_of_id(orders, orders[i].id);
    assert(has_id(orders, orders[i].id));
    if k < i {
        assert(orders[k].id < orders[i].id);
    } else if i < k {
        assert(orders[i].id < orders[k].id);
    }
}

/// The rank of an identifier that splits an ascending list at `i` is `i`.
pub proof fn lemma_rank_split(orders: Seq<Order>, id: u64, i: int)
    requires
        0 <= i <= orders.len(),
        forall|k: int| 0 <= k < i ==> (#[trigger] orders[k]).id < id,
        forall|k: int| i <= k < orders.len() ==> (#[trigger] orders[k]).id >= id,
    ensures
        rank(orders, id) == i,
    decreases orders.len(),
{
    if orders.len() > 0 {
        let init = orders.drop_last();
        if i == orders.len() {
            assert(orders[orders.len() - 1].id < id);
            assert forall|k: int| 0 <= k < i - 1 implies (#[trigger] init[k]).id < id by {
                assert(init[k] == orders[k]);
            }
            lemma_rank_split(init, id, i - 1);
        } else {
            assert(orders[orders.len() - 1].id >= id);
            assert forall|k: int| 0 <= k < i implies (#[trigger] init[k]).id < id by {
                assert(init[k] == orders[k]);
            }
            assert forall|k: int| i <= k < init.len() implies (#[trigger] init[k]).id >= id by {
                assert(init[k] == orders[k]);
            }
            lemma_rank_split(init, id, i);
        }
    }
}

/// The rank is an index at which something can be put.
pub proof fn lemma_rank_bounds(orders: Seq<Order>, id: u64)
    ensures
        0 <= rank(orders, id) <= orders.len(),
    decreases orders.len(),
{
    if orders.len() > 0 {
        lemma_rank_bounds(orders.drop_last(), id);
    }
}

/// In an ascending list the orders below the rank of `id` have smaller
/// identifiers and the others do not.
pub proof fn lemma_rank_sorted(orders: Seq<Order>, id: u64)
    requires
        sorted_by_id(orders),
    ensures
        0 <= rank(orders, id) <= orders.len(),
        forall|k: int| 0 <= k < rank(orders, id) ==> (#[trigger] orders[k]).id < id,
        forall|k: int| rank(orders, id) <= k < orders.len() ==> (#[trigger] orders[k]).id >= id,
    decreases orders.len(),
{
    lemma_rank_bounds(orders, id);
    if orders.len() > 0 {
        let init = orders.drop_last();
        assert forall|i: int, j: int| 0 <= i < j < init.len() implies init[i].id < init[j].id by {
            assert(init[i] == orders[i] && init[j] == orders[j]);
        }
        lemma_rank_sorted(init, id);
        let r = rank(init, id);
        assert forall|k: int| 0 <= k < rank(orders, id) implies (#[trigger] orders[k]).id
            < id by {
            if k < init.len() {
                if k < r {
                    assert(init[k] == orders[k]);
                } else {
                    // the last order is below `id`, and so is everything before it
                    assert(orders.last().id < id);
                    assert(orders[k].id < orders[orders.len() - 1].id);
                }
            }
        }
        assert forall|k: int| rank(orders, id) <= k < orders.len() implies (
        #[trigger] orders[k]).id >= id by {
            if k < init.len() {
                assert(init[k] == orders[k]);
            }
        }
    }
}

/// Putting an order with a new identifier where it belongs keeps the list ascending.
pub proof fn lemma_inserted_sorted(orders: Seq<Order>, o: Order)
    requires
        sorted_by_id(orders),
        !has_id(orders, o.id),
    ensures
        sorted_by_id(inserted(orders, o)),
        has_id(inserted(orders, o), o.id),
        inserted(orders, o).len() == orders.len() + 1,
{
    lemma_rank_sorted(orders, o.id);
    let r = rank(orders, o.id);
    let ins = inserted(orders, o);
    assert forall|k: int| r <= k < orders.len() implies (#[trigger] orders[k]).id > o.id by {
        if orders[k].id == o.id {
            assert(has_id(orders, o.id));
        }
    }
    assert forall|i: int, j: int| 0 <= i < j < ins.len() implies ins[i].id < ins[j].id by {
        if j < r {
            assert(ins[i] == orders[i] && ins[j] == orders[j]);
        } else if j == r {
            assert(ins[i] == orders[i]);
        } else if i < r {
            assert(ins[i] == orders[i] && ins[j] == orders[j - 1]);
        } else if i == r {
            assert(ins[j] == orders[j - 1]);
        } else {
            assert(ins[i] == orders[i - 1] && ins[j] == orders[j - 1]);
        }
    }
    assert(ins[r].id == o.id);
}

/// Where the order at index `k` of the list without `id` stood before.
pub open spec fn index_before(orders: Seq<Order>, id: u64, k: int) -> int {
    if index_of_id(orders, id) < 0 || k < index_of_id(orders, id) {
        k
    } else {
        k + 1
    }
}

/// An order that is left when one is taken out stood in the list before.
pub proof fn lemma_removed_index(orders: Seq<Order>, id: u64, k: int)
    requires
        0 <= k < removed(orders, id).len(),
    ensures
        0 <= index_before(orders, id, k) < orders.len(),
        removed(orders, id)[k] == orders[index_before(orders, id, k)],
{
    lemma_index_of_id(orders, id);
}

/// Taking an order out keeps the list ascending and rids it of the
/// identifier; every order that is left stood in the list before.
pub proof fn lemma_removed_sorted(orders: Seq<Order>, id: u64)
    requires
        sorted_by_id(orders),
    ensures
        sorted_by_id(removed(orders, id)),
        !has_id(removed(orders, id), id),
        forall|k: int|
            0 <= k < removed(orders, id).len() ==> 0 <= index_before(orders, id, k) < orders.len()
                && #[trigger] removed(orders, id)[k] == orders[index_before(orders, id, k)],
{
    lemma_index_of_id(orders, id);
    let i = index_of_id(orders, id);
    let rest = removed(orders, id);
    assert forall|k: int| 0 <= k < rest.len() implies 0 <= index_before(orders, id, k)
        < orders.len() && #[trigger] rest[k] == orders[index_before(orders, id, k)] by {}
    if i >= 0 {
        assert forall|a: int, b: int| 0 <= a < b < rest.len() implies rest[a].id
            < rest[b].id by {
            let a0 = index_before(orders, id, a);
            let b0 = index_before(orders, id, b);
            assert(rest[a] == orders[a0] && rest[b] == orders[b0]);
        }
        assert forall|k: int| 0 <= k < rest.len() implies (#[trigger] rest[k]).id != id by {
            let k0 = index_before(orders, id, k);
            assert(rest[k] == orders[k0]);
            if k0 < i {
                assert(orders[k0].id < orders[i].id);
            } else {
                assert(orders[i].id < orders[k0].id);
            }
        }
    }
}

/// A copy of the list.
pub fn copy_orders(orders: &Vec<Order>) -> (r: Vec<Order>)
    ensures
        r@ == orders@,
{
    let mut out: Vec<Order> = Vec::new();
    let mut i: usize = 0;
    while i < orders.len()
        invariant
            0 <= i <= orders.len(),
            out@ == orders@.take(i as int),
        decreases orders.len() - i,
    {
        out.push(orders[i]);
        proof {
            assert(orders@.take(i as int + 1) =~= orders@.take(i as int).push(orders@[i as int]));
        }
        i = i + 1;
    }
    proof {
        assert(orders@.take(orders.len() as int) =~= orders@);
    }
    out
}

/// The index of the order with the identifier `id`, if there is one.
pub fn find_by_id(orders: &Vec<Order>, id: u64) -> (r: Option<usize>)
    requires
        sorted_by_id(orders@),
    ensures
        r.is_some() <==> has_id(orders@, id),
        r.is_some() ==> r.unwrap() == index_of_id(orders@, id),
        r.is_none() ==> index_of_id(orders@, id) == -1,
{
    let mut i: usize = 0;
    while i < orders.len()
        invariant
            0 <= i <= orders.len(),
            sorted_by_id(orders@),
            forall|k: int| 0 <= k < i ==> (#[trigger] orders@[k]).id != id,
        decreases orders.len() - i,
    {
        if orders[i].id == id {
            proof {
                lemma_index_of_id_unique(orders@, i as int);
                assert(has_id(orders@, id));
            }
            return Some(i);
        }
        i = i + 1;
    }
    proof {
        lemma_index_of_id(orders@, id);
    }
    None
}

/// Takes the order with the identifier `id` out of the list and returns
/// it; leaves the list alone and returns `None` if there is none.
pub fn remove_by_id(orders: &mut Vec<Order>, id: u64) -> (r: Option<Order>)
    requires
        sorted_by_id(old(orders)@),
    ensures
        final(orders)@ == removed(old(orders)@, id),
        sorted_by_id(final(orders)@),
        r.is_some() <==> has_id(old(orders)@, id),
        r.is_some() ==> r.unwrap() == old(orders)@[index_of_id(old(orders)@, id)],
{
    proof {
        lemma_removed_sorted(orders@, id);
        lemma_index_of_id(orders@, id);
    }
    match find_by_id(orders, id) {
        Some(i) => {
            let o = orders.remove(i);
            Some(o)
        },
        None => None,
    }
}

/// Puts an order with a new identifier into the list, where its identifier belongs.
pub fn insert_sorted(orders: &mut Vec<Order>, o: Order)
    requires
        sorted_by_id(old(orders)@),
        !has_id(old(orders)@, o.id),
    ensures
        final(orders)@ == inserted(old(orders)@, o),
        sorted_by_id(final(orders)@),
{
    let mut i: usize = 0;
    while i < orders.len() && orders[i].id < o.id
        invariant
            0 <= i <= orders.len(),
            orders@ == old(orders)@,
            forall|k: int| 0 <= k < i ==> (#[trigger] orders@[k]).id < o.id,
        decreases orders.len() - i,
    {
        i = i + 1;
    }
    proof {
        assert forall|k: int| i <= k < orders.len() implies (#[trigger] orders@[k]).id
            >= o.id by {
            if k > i {
                assert(orders@[i as int].id < orders@[k].id);
            }
        }
        lemma_rank_split(orders@, o.id, i as int);
        lemma_inserted_sorted(orders@, o);
    }
    orders.insert(i, o);
}

} // verus!
