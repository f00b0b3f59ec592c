//! The order in which venues are visited: most favourable price first, and
//! among equal prices the order of the snapshot.

use vstd::prelude::*;
use crate::types::{Liquidity, LiquidityView, OrderSide, liquidity_views};

verus! {

/// The rank of a venue for an order of the given side: the venue with the
/// smaller rank is the more favourable. A buy ranks by ask price, lowest
/// first; a sell by bid price, highest first.
pub open spec fn rank(venue: LiquidityView, side: OrderSide) -> int {
    match side {
        OrderSide::Buy => venue.ask_price.units(),
        OrderSide::Sell => -venue.bid_price.units(),
    }
}

/// The ranks of a snapshot's venues, in the snapshot's order.
pub open spec fn ranks(snapshot: Seq<LiquidityView>, side: OrderSide) -> Seq<int> {
    snapshot.map_values(|venue: LiquidityView| rank(venue, side))
}

/// Venue `a` is visited before venue `b`: it has the smaller rank, or the
/// same rank and the earlier place in the snapshot.
pub open spec fn precedes(ranks: Seq<int>, a: int, b: int) -> bool {
    ranks[a] < ranks[b] || (ranks[a] == ranks[b] && a < b)
}

/// `order` lists the first `n` venues, each once, so that each precedes all
/// that follow it. There is exactly one such list, see
/// [`lemma_visit_order_unique`].
pub open spec fn is_visit_order(order: Seq<int>, ranks: Seq<int>, n: nat) -> bool {
    &&& order.len() == n
    &&& forall|i: int| 0 <= i < n ==> 0 <= #[trigger] order[i] < n
    &&& forall|k: int| 0 <= k < n ==> order.contains(k)
    &&& forall|i: int, j: int| 0 <= i < j < n ==> precedes(ranks, #[trigger] order[i], #[trigger] order[j])
}

/// `order` with venue `k` put behind every venue whose rank is not greater.
pub open spec fn place(order: Seq<int>, ranks: Seq<int>, k: int) -> Seq<int>
    decreases order.len(),
{
    if order.len() == 0 {
        seq![k]
    } else if ranks[order.last()] <= ranks[k] {
        order.push(k)
    } else {
        place(order.drop_last(), ranks, k).push(order.last())
    }
}

/// The order in which the first `n` venues are visited.
pub open spec fn visit_order_of(ranks: Seq<int>, n: nat) -> Seq<int>
    decreases n,
{
    if n == 0 {
        Seq::empty()
    } else {
        place(visit_order_of(ranks, (n - 1) as nat), ranks, n - 1)
    }
}

/// The order in which the venues of a snapshot are visited, as indices into
/// the snapshot.
pub open spec fn visit_order(snapshot: Seq<LiquidityView>, side: OrderSide) -> Seq<int> {
    visit_order_of(ranks(snapshot, side), snapshot.len())
}

/// The indices of a vector as mathematical integers.
pub open spec fn indices(v: Seq<usize>) -> Seq<int> {
    v.map_values(|i: usize| i as int)
}

/// Placing `k` is inserting it at the position behind the last venue whose
/// rank is not greater.
proof fn lemma_place_is_insert(order: Seq<int>, ranks: Seq<int>, k: int, pos: int)
    requires
        0 <= pos <= order.len(),
        forall|j: int| pos <= j < order.len() ==> ranks[#[trigger] order[j]] > ranks[k],
        pos > 0 ==> ranks[order[pos - 1]] <= ranks[k],
    ensures
        place(order, ranks, k) == order.insert(pos, k),
    decreases order.len(),
{
    if order.len() == 0 {
        assert(order.insert(pos, k) =~= seq![k]);
    } else if pos == order.len() {
        assert(order.insert(pos, k) =~= order.push(k));
    } else {
        let rest = order.drop_last();
        assert(ranks[order[order.len() - 1]] > ranks[k]);
        assert forall|j: int| pos <= j < rest.len() implies ranks[#[trigger] rest[j]] > ranks[k] by {
            assert(rest[j] == order[j]);
        }
        lemma_place_is_insert(rest, ranks, k, pos);
        assert(rest.insert(pos, k).push(order.last()) =~= order.insert(pos, k));
    }
}

/// Placing venue `n` into the visit order of the first `n` venues gives the
/// visit order of the first `n + 1`.
proof fn lemma_place_keeps_order(order: Seq<int>, ranks: Seq<int>, n: nat)
    requires
        is_visit_order(order, ranks, n),
        n < ranks.len(),
    ensures
        is_visit_order(place(order, ranks, n as int), ranks, n + 1),
{
    let k = n as int;
    let pos = choose_position(order, ranks, k);
    lemma_position(order, ranks, k, order.len() as int);
    lemma_place_is_insert(order, ranks, k, pos);
    let placed = order.insert(pos, k);
    assert forall|i: int| 0 <= i < n + 1 implies 0 <= #[trigger] placed[i] < n + 1 by {
        if i < pos {
            assert(placed[i] == order[i]);
        } else if i > pos {
            assert(placed[i] == order[i - 1]);
        }
    }
    assert forall|v: int| 0 <= v < n + 1 implies placed.contains(v) by {
        if v == k {
            assert(placed[pos] == k);
        } else {
            assert(order.contains(v));
            let i = choose|i: int| 0 <= i < order.len() && order[i] == v;
            if i < pos {
                assert(placed[i] == v);
            } else {
                assert(placed[i + 1] == v);
            }
        }
    }
    assert forall|i: int, j: int| 0 <= i < j < n + 1 implies precedes(
        ranks,
        #[trigger] placed[i],
        #[trigger] placed[j],
    ) by {
        if j < pos {
            assert(placed[i] == order[i] && placed[j] == order[j]);
        } else if j == pos {
            assert(placed[i] == order[i]);
            // every venue before the position has a rank that is not greater
            assert(precedes(ranks, order[i], order[pos - 1]) || i == pos - 1);
        } else if i == pos {
            assert(placed[j] == order[j - 1]);
        } else if i < pos {
            assert(placed[i] == order[i] && placed[j] == order[j - 1]);
        } else {
            assert(placed[i] == order[i - 1] && placed[j] == order[j - 1]);
        }
    }
}

/// The position behind the last of the first `len` venues of `order` whose
/// rank is not greater than that of `k`.
spec fn position_upto(order: Seq<int>, ranks: Seq<int>, k: int, len: int) -> int
    decreases len,
{
    if len <= 0 {
        0
    } else if ranks[order[len - 1]] <= ranks[k] {
        len
    } else {
        position_upto(order, ranks, k, len - 1)
    }
}

/// The position at which `k` is placed into `order`.
spec fn choose_position(order: Seq<int>, ranks: Seq<int>, k: int) -> int {
    position_upto(order, ranks, k, order.len() as int)
}

/// What [`position_upto`] finds: behind it every rank is greater, and just
/// before it one is not.
proof fn lemma_position(order: Seq<int>, ranks: Seq<int>, k: int, len: int)
    requires
        0 <= len <= order.len(),
    ensures
        0 <= position_upto(order, ranks, k, len) <= len,
        forall|j: int|
            position_upto(order, ranks, k, len) <= j < len ==> ranks[#[trigger] order[j]]
                > ranks[k],
        position_upto(order, ranks, k, len) > 0 ==> ranks[order[position_upto(
            order,
            ranks,
            k,
            len,
        ) - 1]] <= ranks[k],
    decreases len,
{
    if len > 0 && ranks[order[len - 1]] > ranks[k] {
        lemma_position(order, ranks, k, len - 1);
    }
}

/// The visit order lists every venue once, the more favourable first, and
/// venues of equal rank in the order of the snapshot.
pub proof fn lemma_visit_order(ranks: Seq<int>, n: nat)
    requires
        n <= ranks.len(),
    ensures
        is_visit_order(visit_order_of(ranks, n), ranks, n),
    decreases n,
{
    if n > 0 {
        lemma_visit_order(ranks, (n - 1) as nat);
        lemma_place_keeps_order(visit_order_of(ranks, (n - 1) as nat), ranks, (n - 1) as nat);
    }
}

/// Two visit orders of the same venues agree on their first `i` places.
proof fn lemma_visit_orders_agree(a: Seq<int>, b: Seq<int>, ranks: Seq<int>, n: nat, i: nat)
    requires
        is_visit_order(a, ranks, n),
        is_visit_order(b, ranks, n),
        i <= n,
    ensures
        forall|t: int| 0 <= t < i ==> a[t] == b[t],
    decreases i,
{
    if i > 0 {
        lemma_visit_orders_agree(a, b, ranks, n, (i - 1) as nat);
        let p = i - 1;
        let x = a[p];
        assert(b.contains(x));
        let j = choose|j: int| 0 <= j < b.len() && b[j] == x;
        if j < p {
            // the venue would stand twice in `a`
            assert(precedes(ranks, a[j], a[p]));
        } else if j > p {
            let y = b[p];
            assert(precedes(ranks, b[p], b[j]));
            assert(a.contains(y));
            let k = choose|k: int| 0 <= k < a.len() && a[k] == y;
            if k < p {
                // the venue would stand twice in `b`
                assert(precedes(ranks, b[k], b[p]));
            } else if k > p {
                // the two venues would each precede the other
                assert(precedes(ranks, a[p], a[k]));
            }
        }
    }
}

/// The venues have one visit order only: the ranks and, among equal ranks,
/// the places in the snapshot leave nothing open.
pub proof fn lemma_visit_order_unique(a: Seq<int>, b: Seq<int>, ranks: Seq<int>, n: nat)
    requires
        is_visit_order(a, ranks, n),
        is_visit_order(b, ranks, n),
    ensures
        a == b,
{
    lemma_visit_orders_agree(a, b, ranks, n, n);
    assert(a =~= b);
}

/// Whether venue `a` has a greater rank than venue `b`, so that `a` is
/// visited after `b` wherever the two stand in the snapshot.
fn ranks_after(a: &Liquidity, b: &Liquidity, side: OrderSide) -> (r: bool)
    ensures
        r == (rank(a@, side) > rank(b@, side)),
{
    match side {
        OrderSide::Buy => a.ask_price > b.ask_price,
        OrderSide::Sell => a.bid_price < b.bid_price,
    }
}

/// Sorts the venues of a snapshot for an order of the given side and returns
/// their indices: lowest ask first for a buy, highest bid first for a sell,
/// venues of equal price in the order of the snapshot.
pub fn sort_venues(snapshot: &[Liquidity], side: OrderSide) -> (order: Vec<usize>)
    ensures
        indices(order@) == visit_order(liquidity_views(snapshot@), side),
        is_visit_order(indices(order@), ranks(liquidity_views(snapshot@), side), snapshot@.len()),
{
    let n = snapshot.len();
    let ghost venue_ranks = ranks(liquidity_views(snapshot@), side);
    let mut order: Vec<usize> = Vec::new();
    let mut k: usize = 0;
    assert(indices(order@) =~= visit_order_of(venue_ranks, 0));
    while k < n
        invariant
            k <= n,
            n == snapshot@.len(),
            venue_ranks == ranks(liquidity_views(snapshot@), side),
            indices(order@) == visit_order_of(venue_ranks, k as nat),
        decreases n - k,
    {
        proof {
            lemma_visit_order(venue_ranks, k as nat);
            assert forall|i: int| 0 <= i < order@.len() implies #[trigger] order@[i] < k by {
                assert(indices(order@)[i] == order@[i]);
            }
        }
        let mut pos: usize = order.len();
        while pos > 0 && ranks_after(&snapshot[order[pos - 1]], &snapshot[k], side)
            invariant
                pos <= order@.len(),
                k < n,
                n == snapshot@.len(),
                order@.len() == k,
                venue_ranks == ranks(liquidity_views(snapshot@), side),
                is_visit_order(indices(order@), venue_ranks, k as nat),
                forall|i: int| 0 <= i < order@.len() ==> #[trigger] order@[i] < k,
                forall|j: int|
                    pos <= j < order@.len() ==> venue_ranks[#[trigger] indices(order@)[j]]
                        > venue_ranks[k as int],
            decreases pos,
        {
            pos = pos - 1;
        }
        proof {
            lemma_place_is_insert(indices(order@), venue_ranks, k as int, pos as int);
            assert(indices(order@.insert(pos as int, k)) =~= indices(order@).insert(
                pos as int,
                k as int,
            ));
        }
        order.insert(pos, k);
        k = k + 1;
    }
    proof {
        lemma_visit_order(venue_ranks, n as nat);
    }
    order
}

} // verus!
