use vstd::prelude::*;

use crate::order::{OrderAction, OrderRequest};

verus! {

broadcast use vstd::seq_lib::group_to_multiset_ensures;

/// On the `side` of the book, price `a` comes strictly ahead of price `b`:
/// a higher bid, or a lower ask.
pub open spec fn better_price(side: OrderAction, a: u64, b: u64) -> bool {
    match side {
        OrderAction::Buy => a > b,
        OrderAction::Sell => a < b,
    }
}

/// No order stands behind one that it beats on price: bids in descending
/// price, asks in ascending price.
pub open spec fn priority_sorted(s: Seq<OrderRequest>, side: OrderAction) -> bool {
    forall|i: int, j: int| 0 <= i < j < s.len() ==> !better_price(side, #[trigger] s[j].price, #[trigger] s[i].price)
}

/// `x` placed into `s` ahead of the first order that it beats on price, so
/// behind every order at the same or a better price.
pub open spec fn insert_by_priority(s: Seq<OrderRequest>, x: OrderRequest, side: OrderAction) -> Seq<OrderRequest>
    decreases s.len(),
{
    if s.len() == 0 {
        seq![x]
    } else if better_price(side, x.price, s[0].price) {
        seq![x] + s
    } else {
        seq![s[0]] + insert_by_priority(s.drop_first(), x, side)
    }
}

/// The stable sort of `s` by price priority: each order, in turn, joins the
/// sorted orders before it at its priority position.
pub open spec fn priority_sort(s: Seq<OrderRequest>, side: OrderAction) -> Seq<OrderRequest>
    decreases s.len(),
{
    if s.len() == 0 {
        s
    } else {
        insert_by_priority(priority_sort(s.drop_last(), side), s.last(), side)
    }
}

/// Whether price `a` comes strictly ahead of price `b` on `side`.
pub fn price_ahead(side: OrderAction, a: u64, b: u64) -> (res: bool)
    ensures
        res == better_price(side, a, b),
{
    match side {
        OrderAction::Buy => a > b,
        OrderAction::Sell => a < b,
    }
}

/// Inserting at a position that follows every order not beaten and precedes
/// the first order beaten is what `insert_by_priority` does.
proof fn lemma_insert_at(s: Seq<OrderRequest>, x: OrderRequest, side: OrderAction, j: int)
    requires
        0 <= j <= s.len(),
        forall|k: int| 0 <= k < j ==> !better_price(side, x.price, #[trigger] s[k].price),
        j < s.len() ==> better_price(side, x.price, s[j].price),
    ensures
        insert_by_priority(s, x, side) == s.insert(j, x),
    decreases s.len(),
{
    if s.len() == 0 {
        assert(s.insert(j, x) =~= seq![x]);
    } else if better_price(side, x.price, s[0].price) {
        if j > 0 {
            assert(!better_price(side, x.price, s[0].price));
        }
        assert(s.insert(j, x) =~= seq![x] + s);
    } else {
        assert(j > 0);
        let t = s.drop_first();
        assert forall|k: int| 0 <= k < j - 1 implies !better_price(side, x.price, #[trigger] t[k].price) by {
            assert(t[k] == s[k + 1]);
        }
        lemma_insert_at(t, x, side, j - 1);
        assert(s.insert(j, x) =~= seq![s[0]] + t.insert(j - 1, x));
    }
}

/// The position at which `insert_by_priority` places `x`.
proof fn lemma_insert_position(s: Seq<OrderRequest>, x: OrderRequest, side: OrderAction) -> (j: int)
    ensures
        0 <= j <= s.len(),
        forall|k: int| 0 <= k < j ==> !better_price(side, x.price, #[trigger] s[k].price),
        j < s.len() ==> better_price(side, x.price, s[j].price),
        insert_by_priority(s, x, side) == s.insert(j, x),
    decreases s.len(),
{
    if s.len() == 0 {
        lemma_insert_at(s, x, side, 0);
        0
    } else if better_price(side, x.price, s[0].price) {
        lemma_insert_at(s, x, side, 0);
        0
    } else {
        let t = s.drop_first();
        let j0 = lemma_insert_position(t, x, side);
        assert forall|k: int| 0 <= k < j0 + 1 implies !better_price(side, x.price, #[trigger] s[k].price) by {
            if k > 0 {
                assert(s[k] == t[k - 1]);
            }
        }
        if j0 + 1 < s.len() {
            assert(s[j0 + 1] == t[j0]);
        }
        lemma_insert_at(s, x, side, j0 + 1);
        j0 + 1
    }
}

proof fn lemma_insert_keeps_sorted(s: Seq<OrderRequest>, x: OrderRequest, side: OrderAction)
    requires
        priority_sorted(s, side),
    ensures
        priority_sorted(insert_by_priority(s, x, side), side),
{
    let j = lemma_insert_position(s, x, side);
    let r = s.insert(j, x);
    assert forall|a: int, b: int| 0 <= a < b < r.len() implies !better_price(side, #[trigger] r[b].price, #[trigger] r[a].price) by {
        if a < j && b == j {
            assert(r[a] == s[a]);
        } else if a == j && b > j {
            assert(r[b] == s[b - 1]);
            if j < s.len() {
                assert(!better_price(side, s[b - 1].price, s[j].price) || b - 1 == j);
            }
        } else if a < j {
            assert(r[a] == s[a]);
            if b < j { assert(r[b] == s[b]); } else { assert(r[b] == s[b - 1]); }
        } else {
            assert(r[a] == s[a - 1]);
            assert(r[b] == s[b - 1]);
        }
    }
}

proof fn lemma_insert_multiset(s: Seq<OrderRequest>, x: OrderRequest, side: OrderAction)
    ensures
        insert_by_priority(s, x, side).to_multiset() == s.to_multiset().insert(x),
{
    let j = lemma_insert_position(s, x, side);
    vstd::seq_lib::to_multiset_insert(s, j, x);
}

/// If `x` beats no order of `s`, it joins at the back.
proof fn lemma_insert_at_back(s: Seq<OrderRequest>, x: OrderRequest, side: OrderAction)
    requires
        forall|k: int| 0 <= k < s.len() ==> !better_price(side, x.price, #[trigger] s[k].price),
    ensures
        insert_by_priority(s, x, side) == s.push(x),
{
    lemma_insert_at(s, x, side, s.len() as int);
    assert(s.insert(s.len() as int, x) =~= s.push(x));
}

/// Law: the priority sort of any sequence is sorted by price priority and
/// holds the same orders, each as often as before.
pub proof fn lemma_priority_sort_sorted_permutation(s: Seq<OrderRequest>, side: OrderAction)
    ensures
        priority_sorted(priority_sort(s, side), side),
        priority_sort(s, side).to_multiset() == s.to_multiset(),
        priority_sort(s, side).len() == s.len(),
    decreases s.len(),
{
    if s.len() > 0 {
        lemma_priority_sort_sorted_permutation(s.drop_last(), side);
        lemma_insert_keeps_sorted(priority_sort(s.drop_last(), side), s.last(), side);
        lemma_insert_multiset(priority_sort(s.drop_last(), side), s.last(), side);
        assert(s.drop_last().push(s.last()) =~= s);
        vstd::seq_lib::to_multiset_build(s.drop_last(), s.last());
        lemma_insert_position(priority_sort(s.drop_last(), side), s.last(), side);
    }
}

/// Law: sorting a sequence that is already in priority order leaves it as it is.
pub proof fn lemma_priority_sort_of_sorted(s: Seq<OrderRequest>, side: OrderAction)
    requires
        priority_sorted(s, side),
    ensures
        priority_sort(s, side) == s,
    decreases s.len(),
{
    if s.len() > 0 {
        let t = s.drop_last();
        assert(priority_sorted(t, side)) by {
            assert forall|i: int, j: int| 0 <= i < j < t.len() implies !better_price(side, #[trigger] t[j].price, #[trigger] t[i].price) by {
                assert(t[i] == s[i] && t[j] == s[j]);
            }
        }
        lemma_priority_sort_of_sorted(t, side);
        assert forall|k: int| 0 <= k < t.len() implies !better_price(side, s.last().price, #[trigger] t[k].price) by {
            assert(t[k] == s[k]);
        }
        lemma_insert_at_back(t, s.last(), side);
        assert(t.push(s.last()) =~= s);
    }
}

/// Law (price-time priority): an order added to a book side in priority order
/// and then sorted lands behind every resting order at the same or a better
/// price, ahead of every order at a worse price, with the rest unmoved.
pub proof fn lemma_new_order_priority_position(s: Seq<OrderRequest>, x: OrderRequest, side: OrderAction)
    requires
        priority_sorted(s, side),
    ensures
        exists|j: int| {
            &&& 0 <= j <= s.len()
            &&& priority_sort(s.push(x), side) == s.insert(j, x)
            &&& forall|k: int| 0 <= k < j ==> !better_price(side, x.price, #[trigger] s[k].price)
            &&& forall|k: int| j <= k < s.len() ==> better_price(side, x.price, #[trigger] s[k].price)
        },
{
    lemma_priority_sort_of_sorted(s, side);
    assert(s.push(x).drop_last() =~= s);
    let j = lemma_insert_position(s, x, side);
    assert forall|k: int| j <= k < s.len() implies better_price(side, x.price, #[trigger] s[k].price) by {
        if k > j {
            assert(!better_price(side, s[k].price, s[j].price));
        }
    }
    assert(priority_sort(s.push(x), side) == s.insert(j, x));
}

/// Bids stand in descending price order.
pub open spec fn bids_descending(s: Seq<OrderRequest>) -> bool {
    forall|i: int, j: int| 0 <= i < j < s.len() ==> #[trigger] s[i].price >= #[trigger] s[j].price
}

/// Asks stand in ascending price order.
pub open spec fn asks_ascending(s: Seq<OrderRequest>) -> bool {
    forall|i: int, j: int| 0 <= i < j < s.len() ==> #[trigger] s[i].price <= #[trigger] s[j].price
}

/// A book side is in price order for its side: bids highest first, asks
/// lowest first.
pub open spec fn in_price_order(s: Seq<OrderRequest>, side: OrderAction) -> bool {
    match side {
        OrderAction::Buy => bids_descending(s),
        OrderAction::Sell => asks_ascending(s),
    }
}

/// The orders of `s` at price `p`, in their order in `s`.
pub open spec fn at_price(s: Seq<OrderRequest>, p: u64) -> Seq<OrderRequest> {
    s.filter(|o: OrderRequest| o.price == p)
}

proof fn lemma_priority_sorted_in_price_order(s: Seq<OrderRequest>, side: OrderAction)
    requires
        priority_sorted(s, side),
    ensures
        in_price_order(s, side),
{
    match side {
        OrderAction::Buy => {
            assert forall|i: int, j: int| 0 <= i < j < s.len() implies #[trigger] s[i].price >= #[trigger] s[j].price by {
                assert(!better_price(side, s[j].price, s[i].price));
            }
        },
        OrderAction::Sell => {
            assert forall|i: int, j: int| 0 <= i < j < s.len() implies #[trigger] s[i].price <= #[trigger] s[j].price by {
                assert(!better_price(side, s[j].price, s[i].price));
            }
        },
    }
}

/// Being in price order and being sorted by price priority are the same.
pub proof fn lemma_in_price_order_iff_sorted(s: Seq<OrderRequest>, side: OrderAction)
    ensures
        in_price_order(s, side) == priority_sorted(s, side),
{
    if priority_sorted(s, side) {
        lemma_priority_sorted_in_price_order(s, side);
    }
    if in_price_order(s, side) {
        assert forall|i: int, j: int| 0 <= i < j < s.len() implies !better_price(side, #[trigger] s[j].price, #[trigger] s[i].price) by {
            match side {
                OrderAction::Buy => assert(s[i].price >= s[j].price),
                OrderAction::Sell => assert(s[i].price <= s[j].price),
            }
        }
    }
}

/// Inserting into a sorted side keeps the orders at each price in their
/// order, with `x` after those at its own price.
proof fn lemma_insert_at_price(s: Seq<OrderRequest>, x: OrderRequest, side: OrderAction, p: u64)
    requires
        priority_sorted(s, side),
    ensures
        at_price(insert_by_priority(s, x, side), p) == at_price(s, p) + if x.price == p {
            seq![x]
        } else {
            Seq::<OrderRequest>::empty()
        },
{
    let pred = |o: OrderRequest| o.price == p;
    let j = lemma_insert_position(s, x, side);
    let a = s.take(j);
    let b = s.skip(j);
    assert(s =~= a + b);
    assert(s.insert(j, x) =~= a + seq![x] + b);
    Seq::filter_distributes_over_add(a, b, pred);
    Seq::filter_distributes_over_add(a + seq![x], b, pred);
    Seq::filter_distributes_over_add(a, seq![x], pred);
    reveal_with_fuel(Seq::filter, 2);
    assert(seq![x].drop_last() =~= Seq::<OrderRequest>::empty());
    if x.price == p {
        assert forall|k: int| 0 <= k < b.len() implies !pred(#[trigger] b[k]) by {
            assert(b[k] == s[j + k]);
            assert(better_price(side, x.price, s[j].price));
            if k > 0 {
                assert(!better_price(side, s[j + k].price, s[j].price));
            }
        }
        b.lemma_all_neg_filter_empty(pred);
        assert(b.filter(pred) =~= Seq::<OrderRequest>::empty());
        assert(seq![x].filter(pred) =~= seq![x]);
    } else {
        assert(seq![x].filter(pred) =~= Seq::<OrderRequest>::empty());
    }
}

/// The priority sort keeps the orders at each price in their order.
proof fn lemma_priority_sort_at_price(s: Seq<OrderRequest>, side: OrderAction, p: u64)
    ensures
        at_price(priority_sort(s, side), p) == at_price(s, p),
    decreases s.len(),
{
    if s.len() == 0 {
    } else {
        let t = s.drop_last();
        lemma_priority_sort_at_price(t, side, p);
        lemma_priority_sort_sorted_permutation(t, side);
        lemma_insert_at_price(priority_sort(t, side), s.last(), side, p);
        reveal_with_fuel(Seq::filter, 1);
        let pred = |o: OrderRequest| o.price == p;
        assert(s.filter(pred) == if pred(s.last()) { t.filter(pred).push(s.last()) } else { t.filter(pred) });
        assert(t.filter(pred).push(s.last()) =~= t.filter(pred) + seq![s.last()]);
        assert(t.filter(pred) + Seq::<OrderRequest>::empty() =~= t.filter(pred));
    }
}

/// Law (stable price-priority sort): the result holds the same orders as
/// `s`, each as often; it is in price order for `side` (bids highest first,
/// asks lowest first); and the orders at any one price keep the order they
/// had in `s`.
pub proof fn lemma_priority_sort_laws(s: Seq<OrderRequest>, side: OrderAction)
    ensures
        priority_sort(s, side).to_multiset() == s.to_multiset(),
        in_price_order(priority_sort(s, side), side),
        forall|p: u64| #[trigger] at_price(priority_sort(s, side), p) == at_price(s, p),
{
    lemma_priority_sort_sorted_permutation(s, side);
    lemma_priority_sorted_in_price_order(priority_sort(s, side), side);
    assert forall|p: u64| #[trigger] at_price(priority_sort(s, side), p) == at_price(s, p) by {
        lemma_priority_sort_at_price(s, side, p);
    }
}

/// Sorts `v` by price priority for `side`, keeping arrival order among
/// orders at the same price.
pub fn sort_by_priority(v: &mut Vec<OrderRequest>, side: OrderAction)
    ensures
        final(v)@ == priority_sort(old(v)@, side),
        final(v)@.to_multiset() == old(v)@.to_multiset(),
        in_price_order(final(v)@, side),
        forall|p: u64| #[trigger] at_price(final(v)@, p) == at_price(old(v)@, p),
{
    let ghost s0 = v@;
    let n = v.len();
    let mut i: usize = 0;
    while i < n
        invariant
            n == v@.len(),
            n == s0.len(),
            i <= n,
            v@.take(i as int) == priority_sort(s0.take(i as int), side),
            v@.skip(i as int) == s0.skip(i as int),
        decreases n - i,
    {
        let ghost before = v@;
        let x = v.remove(i);
        assert(x == s0[i as int]) by {
            assert(before.skip(i as int)[0] == before[i as int]);
        }
        let ghost prefix = before.take(i as int);
        assert(v@.take(i as int) =~= prefix);
        let mut j: usize = 0;
        while j < i && !price_ahead(side, x.price, v[j].price)
            invariant
                j <= i,
                i < n,
                v@.len() == n - 1,
                v@.take(i as int) == prefix,
                forall|k: int| 0 <= k < j ==> !better_price(side, x.price, #[trigger] prefix[k].price),
            decreases i - j,
        {
            assert(prefix[j as int] == v@[j as int]);
            j = j + 1;
        }
        proof {
            if j < i {
                assert(prefix[j as int] == v@[j as int]);
            }
            lemma_insert_at(prefix, x, side, j as int);
        }
        let ghost mid = v@;
        v.insert(j, x);
        proof {
            assert(s0.take(i + 1).drop_last() =~= s0.take(i as int));
            assert(s0.take(i + 1).last() == x);
            assert(v@.take(i + 1) =~= prefix.insert(j as int, x));
            assert(v@.skip(i + 1) =~= s0.skip(i + 1)) by {
                assert(mid.skip(i as int) =~= before.skip(i + 1));
                assert(before.skip(i + 1) =~= s0.skip(i + 1)) by {
                    assert(before.skip(i as int).drop_first() =~= before.skip(i + 1));
                    assert(s0.skip(i as int).drop_first() =~= s0.skip(i + 1));
                }
            }
        }
        i = i + 1;
    }
    proof {
        assert(v@.take(n as int) =~= v@);
        assert(s0.take(n as int) =~= s0);
        lemma_priority_sort_laws(s0, side);
    }
}

} // verus!
