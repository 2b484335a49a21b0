use vstd::prelude::*;

use crate::order::{OrderRequest, OrderStatus};
use crate::stock::Stock;

verus! {

/// One trade between an incoming market order and the best resting order:
/// both sides of the trade, marked completed, and the price it set.
#[derive(Clone, Debug, PartialEq)]
pub struct Execution {
    /// The resting order's side of the trade.
    pub completed_best_order: OrderRequest,
    /// The incoming order's side of the trade.
    pub completed_order: OrderRequest,
    /// The stock with its new last traded price.
    pub updated_stock: Stock,
}

/// `o` completed for `quantity` at `price`.
pub open spec fn completed(o: OrderRequest, price: u64, quantity: usize) -> OrderRequest {
    OrderRequest {
        broker_id: o.broker_id,
        client_id: o.client_id,
        order_id: o.order_id,
        stock_symbol: o.stock_symbol,
        order_type: o.order_type,
        order_action: o.order_action,
        price: price,
        quantity: quantity,
        status: OrderStatus::Completed,
    }
}

/// `o` with its quantity replaced.
pub open spec fn with_quantity(o: OrderRequest, quantity: usize) -> OrderRequest {
    OrderRequest { quantity: quantity, ..o }
}

/// The trade of `quantity` between `order` and the resting order `best`, at
/// the resting order's price.
pub open spec fn execution_of(order: OrderRequest, best: OrderRequest, quantity: usize) -> Execution {
    Execution {
        completed_best_order: completed(best, best.price, quantity),
        completed_order: completed(order, best.price, quantity),
        updated_stock: Stock { name: best.stock_symbol, price: best.price },
    }
}

/// The quantities traded when `q` units meet the resting orders `book`, best
/// first: each resting order that the remainder covers is taken whole, the
/// first one that it does not cover is taken in part, and trading stops
/// when nothing remains.
pub open spec fn fills(q: usize, book: Seq<OrderRequest>) -> Seq<usize>
    decreases book.len(),
{
    if q == 0 || book.len() == 0 {
        seq![]
    } else if q >= book[0].quantity {
        seq![book[0].quantity] + fills((q - book[0].quantity) as usize, book.drop_first())
    } else {
        seq![q]
    }
}

/// The resting orders left after `q` units traded against `book`: those
/// taken whole are gone, one taken in part keeps what was not traded.
pub open spec fn book_after_fills(q: usize, book: Seq<OrderRequest>) -> Seq<OrderRequest>
    decreases book.len(),
{
    if q == 0 || book.len() == 0 {
        book
    } else if q >= book[0].quantity {
        book_after_fills((q - book[0].quantity) as usize, book.drop_first())
    } else {
        seq![with_quantity(book[0], (book[0].quantity - q) as usize)] + book.drop_first()
    }
}

/// Sum of the traded quantities.
pub open spec fn total(f: Seq<usize>) -> nat
    decreases f.len(),
{
    if f.len() == 0 {
        0
    } else {
        total(f.drop_last()) + f.last() as nat
    }
}

/// Sum of the quantities of the orders.
pub open spec fn resting_quantity(book: Seq<OrderRequest>) -> nat
    decreases book.len(),
{
    if book.len() == 0 {
        0
    } else {
        book[0].quantity as nat + resting_quantity(book.drop_first())
    }
}

proof fn lemma_total_push(f: Seq<usize>, x: usize)
    ensures
        total(f.push(x)) == total(f) + x,
{
    assert(f.push(x).drop_last() =~= f);
}

proof fn lemma_total_prepend(x: usize, f: Seq<usize>)
    ensures
        total(seq![x] + f) == x + total(f),
    decreases f.len(),
{
    if f.len() == 0 {
        assert(seq![x] + f =~= seq![x]);
        assert(seq![x].drop_last() =~= Seq::<usize>::empty());
        assert(total(Seq::<usize>::empty()) == 0);
        assert(total(seq![x]) == total(seq![x].drop_last()) + x);
    } else {
        lemma_total_prepend(x, f.drop_last());
        assert((seq![x] + f).drop_last() =~= seq![x] + f.drop_last());
        assert((seq![x] + f).last() == f.last());
    }
}

/// Law (conservation): the traded quantity is the smaller of the order's
/// quantity and the quantity resting on the book, each trade takes no more
/// than its resting order holds, the resting quantity left is what was there
/// less what was traded, and a remainder is left untraded only when the
/// book has been emptied.
pub proof fn lemma_fills_conserve(q: usize, book: Seq<OrderRequest>)
    ensures
        total(fills(q, book)) == if q <= resting_quantity(book) { q as nat } else { resting_quantity(book) },
        fills(q, book).len() <= book.len(),
        forall|i: int| 0 <= i < fills(q, book).len() ==> #[trigger] fills(q, book)[i] <= book[i].quantity,
        resting_quantity(book_after_fills(q, book)) + total(fills(q, book)) == resting_quantity(book),
        total(fills(q, book)) < q ==> book_after_fills(q, book).len() == 0,
    decreases book.len(),
{
    if q == 0 || book.len() == 0 {
    } else if q >= book[0].quantity {
        let r = (q - book[0].quantity) as usize;
        let t = book.drop_first();
        lemma_fills_conserve(r, t);
        lemma_total_prepend(book[0].quantity, fills(r, t));
        let f = fills(q, book);
        assert forall|i: int| 0 <= i < f.len() implies #[trigger] f[i] <= book[i].quantity by {
            if i > 0 {
                assert(f[i] == fills(r, t)[i - 1]);
                assert(t[i - 1] == book[i]);
            }
        }
    } else {
        lemma_total_prepend(q, seq![]);
        assert(seq![q] + Seq::<usize>::empty() =~= seq![q]);
        let b = seq![with_quantity(book[0], (book[0].quantity - q) as usize)] + book.drop_first();
        assert(b.drop_first() =~= book.drop_first());
    }
}

/// Law: a book side in priority order stays in priority order after trading
/// against it, since trading removes orders from the front and changes no
/// price.
pub proof fn lemma_fills_keep_sorted(q: usize, book: Seq<OrderRequest>, side: crate::order::OrderAction)
    requires
        crate::priority::priority_sorted(book, side),
    ensures
        crate::priority::priority_sorted(book_after_fills(q, book), side),
    decreases book.len(),
{
    if q == 0 || book.len() == 0 {
    } else {
        let t = book.drop_first();
        assert(crate::priority::priority_sorted(t, side)) by {
            assert forall|i: int, j: int| 0 <= i < j < t.len() implies
                !crate::priority::better_price(side, #[trigger] t[j].price, #[trigger] t[i].price)
            by {
                assert(t[i] == book[i + 1] && t[j] == book[j + 1]);
            }
        }
        if q >= book[0].quantity {
            lemma_fills_keep_sorted((q - book[0].quantity) as usize, t, side);
        } else {
            let b = book_after_fills(q, book);
            assert forall|i: int, j: int| 0 <= i < j < b.len() implies
                !crate::priority::better_price(side, #[trigger] b[j].price, #[trigger] b[i].price)
            by {
                assert(b[j] == book[j]);
                if i > 0 {
                    assert(b[i] == book[i]);
                }
            }
        }
    }
}

/// Total quantity traded by `trades`, as the incoming order's side records it.
pub open spec fn traded_quantity(trades: Seq<Execution>) -> nat
    decreases trades.len(),
{
    if trades.len() == 0 {
        0
    } else {
        traded_quantity(trades.drop_last()) + trades.last().completed_order.quantity as nat
    }
}

/// What trading an incoming `order` against the resting orders `book`
/// (best first) must come to, when it produced `trades`, left `book_after`
/// resting and `remaining` of the order untraded:
/// - the i-th trade is with the i-th resting order, at that order's price;
///   its resting side is that order (same broker, client, id, stock, kind and
///   side) completed for the traded quantity, its incoming side is `order`
///   completed for the same quantity at the same price, and the stock's new
///   price is that price;
/// - every resting order traded except the last is taken whole, and the last
///   is taken at most whole;
/// - a trade happens only while part of the order is still untraded;
/// - traded plus remaining is the order's quantity, and a remainder is left
///   only when no resting order is left;
/// - the orders left are the untouched ones, in their places: the book less
///   those taken whole, with a partly taken order kept at the front, reduced
///   by what it traded.
pub open spec fn market_trading_laws(
    order: OrderRequest,
    book: Seq<OrderRequest>,
    book_after: Seq<OrderRequest>,
    trades: Seq<Execution>,
    remaining: usize,
) -> bool {
    let n = trades.len();
    &&& n <= book.len()
    &&& forall|i: int| 0 <= i < n ==> #[trigger] trades[i].completed_best_order == OrderRequest {
        price: book[i].price,
        quantity: trades[i].completed_order.quantity,
        status: OrderStatus::Completed,
        ..book[i]
    }
    &&& forall|i: int| 0 <= i < n ==> #[trigger] trades[i].completed_order == OrderRequest {
        price: book[i].price,
        quantity: trades[i].completed_order.quantity,
        status: OrderStatus::Completed,
        ..order
    }
    &&& forall|i: int| 0 <= i < n ==> #[trigger] trades[i].updated_stock == Stock {
        name: book[i].stock_symbol,
        price: book[i].price,
    }
    &&& forall|i: int| 0 <= i < n - 1 ==> #[trigger] trades[i].completed_order.quantity == book[i].quantity
    &&& n > 0 ==> trades[n - 1].completed_order.quantity <= book[n - 1].quantity
    &&& forall|i: int| 0 <= i < n ==> traded_quantity(#[trigger] trades.take(i)) < order.quantity
    &&& traded_quantity(trades) + remaining == order.quantity
    &&& remaining == 0 || book_after.len() == 0
    &&& if n > 0 && trades[n - 1].completed_order.quantity < book[n - 1].quantity {
        book_after == seq![OrderRequest {
            quantity: (book[n - 1].quantity - trades[n - 1].completed_order.quantity) as usize,
            ..book[n - 1]
        }] + book.skip(n as int)
    } else {
        book_after == book.skip(n as int)
    }
}

/// The shape of `fills` and `book_after_fills`: all fills but the last take
/// their order whole, and the book left is the untouched suffix, with a
/// partly taken order kept in front.
proof fn lemma_fills_shape(q: usize, book: Seq<OrderRequest>)
    ensures
        ({
            let f = fills(q, book);
            let n = f.len();
            &&& n <= book.len()
            &&& forall|i: int| 0 <= i < n - 1 ==> #[trigger] f[i] == book[i].quantity
            &&& n > 0 ==> f[n - 1] <= book[n - 1].quantity
            &&& if n > 0 && f[n - 1] < book[n - 1].quantity {
                book_after_fills(q, book) == seq![with_quantity(book[n - 1], (book[n - 1].quantity - f[n - 1]) as usize)]
                    + book.skip(n as int)
            } else {
                book_after_fills(q, book) == book.skip(n as int)
            }
        }),
    decreases book.len(),
{
    if q == 0 || book.len() == 0 {
        assert(book.skip(0) =~= book);
    } else if q >= book[0].quantity {
        let r = (q - book[0].quantity) as usize;
        let t = book.drop_first();
        lemma_fills_shape(r, t);
        let f = fills(q, book);
        let g = fills(r, t);
        let n = f.len();
        assert(n == g.len() + 1);
        assert forall|i: int| 0 <= i < n - 1 implies #[trigger] f[i] == book[i].quantity by {
            if i > 0 {
                assert(f[i] == g[i - 1]);
                assert(t[i - 1] == book[i]);
            }
        }
        if g.len() > 0 {
            assert(f[n - 1] == g[g.len() - 1]);
            assert(t[g.len() - 1] == book[n - 1]);
        }
        assert(t.skip(g.len() as int) =~= book.skip(n as int));
    } else {
        assert(book.skip(1) =~= book.drop_first());
    }
}

/// Before each fill, part of the order is still untraded.
proof fn lemma_fills_prefix(q: usize, book: Seq<OrderRequest>)
    ensures
        forall|i: int| 0 <= i < fills(q, book).len() ==> total(#[trigger] fills(q, book).take(i)) < q,
    decreases book.len(),
{
    let f = fills(q, book);
    if q == 0 || book.len() == 0 {
    } else if q >= book[0].quantity {
        let r = (q - book[0].quantity) as usize;
        let t = book.drop_first();
        lemma_fills_prefix(r, t);
        let g = fills(r, t);
        assert forall|i: int| 0 <= i < f.len() implies total(#[trigger] f.take(i)) < q by {
            if i == 0 {
                assert(f.take(0) =~= Seq::<usize>::empty());
            } else {
                assert(f.take(i) =~= seq![book[0].quantity] + g.take(i - 1));
                lemma_total_prepend(book[0].quantity, g.take(i - 1));
                assert(total(g.take(i - 1)) < r);
            }
        }
    } else {
        assert forall|i: int| 0 <= i < f.len() implies total(#[trigger] f.take(i)) < q by {
            assert(f.take(0) =~= Seq::<usize>::empty());
        }
    }
}

proof fn lemma_traded_quantity(trades: Seq<Execution>, f: Seq<usize>)
    requires
        trades.len() == f.len(),
        forall|i: int| 0 <= i < f.len() ==> #[trigger] trades[i].completed_order.quantity == f[i],
    ensures
        traded_quantity(trades) == total(f),
    decreases f.len(),
{
    if f.len() > 0 {
        lemma_traded_quantity(trades.drop_last(), f.drop_last());
    }
}

/// Law: trading as `fills` and `book_after_fills` describe it meets
/// `market_trading_laws`.
proof fn lemma_trading_laws(order: OrderRequest, book: Seq<OrderRequest>, trades: Seq<Execution>)
    requires
        trades.len() == fills(order.quantity, book).len(),
        forall|i: int| 0 <= i < trades.len() ==> #[trigger] trades[i] == execution_of(
            order,
            book[i],
            fills(order.quantity, book)[i],
        ),
    ensures
        market_trading_laws(
            order,
            book,
            book_after_fills(order.quantity, book),
            trades,
            (order.quantity - total(fills(order.quantity, book))) as usize,
        ),
{
    let f = fills(order.quantity, book);
    lemma_fills_shape(order.quantity, book);
    lemma_fills_conserve(order.quantity, book);
    assert forall|i: int| 0 <= i < f.len() implies #[trigger] trades[i].completed_order.quantity == f[i] by {
        assert(trades[i] == execution_of(order, book[i], f[i]));
    }
    lemma_traded_quantity(trades, f);
    lemma_fills_prefix(order.quantity, book);
    let n = trades.len();
    assert forall|i: int| 0 <= i < n implies traded_quantity(#[trigger] trades.take(i)) < order.quantity by {
        lemma_traded_quantity(trades.take(i), f.take(i));
        assert(total(f.take(i)) < order.quantity);
    }
    assert forall|i: int| 0 <= i < n - 1 implies #[trigger] trades[i].completed_order.quantity == book[i].quantity by {
        assert(trades[i].completed_order.quantity == f[i]);
    }
    if n > 0 {
        assert(trades[n - 1].completed_order.quantity == f[n - 1]);
    }
}

/// Executes the market `order` against the resting `opposing_orders`, best
/// first, at the resting orders' prices, until the order is filled or the
/// opposing side is empty.
///
/// Returns whether the order was filled completely, and the trades in the
/// order they happened. `order.quantity` becomes the untraded remainder.
pub fn execute_market_order(order: &mut OrderRequest, opposing_orders: &mut Vec<OrderRequest>) -> (res: (
    bool,
    Vec<Execution>,
))
    ensures
        res.1@.len() == fills(old(order).quantity, old(opposing_orders)@).len(),
        forall|i: int|
            0 <= i < res.1@.len() ==> #[trigger] res.1@[i] == execution_of(
                *old(order),
                old(opposing_orders)@[i],
                fills(old(order).quantity, old(opposing_orders)@)[i],
            ),
        final(opposing_orders)@ == book_after_fills(old(order).quantity, old(opposing_orders)@),
        *final(order) == with_quantity(
            *old(order),
            (old(order).quantity - total(fills(old(order).quantity, old(opposing_orders)@))) as usize,
        ),
        res.0 == (final(order).quantity == 0),
        res.0 == (old(order).quantity <= resting_quantity(old(opposing_orders)@)),
        !res.0 ==> final(opposing_orders)@.len() == 0,
        market_trading_laws(
            *old(order),
            old(opposing_orders)@,
            final(opposing_orders)@,
            res.1@,
            final(order).quantity,
        ),
        *final(order) == (OrderRequest { quantity: final(order).quantity, ..*old(order) }),
{
    let ghost order0 = *order;
    let ghost book0 = opposing_orders@;
    let ghost q0 = order.quantity;
    let ghost mut done: Seq<usize> = seq![];
    let mut remaining = order.quantity;
    let mut executions: Vec<Execution> = Vec::new();
    proof {
        assert(done + fills(remaining, opposing_orders@) =~= fills(q0, book0));
        assert(book0.skip(0) =~= book0);
    }
    while remaining > 0 && opposing_orders.len() > 0
        invariant
            *order == order0,
            q0 == order0.quantity,
            fills(q0, book0) == done + fills(remaining, opposing_orders@),
            book_after_fills(q0, book0) == book_after_fills(remaining, opposing_orders@),
            total(done) + remaining == q0,
            executions@.len() == done.len(),
            forall|i: int| 0 <= i < done.len() ==> #[trigger] executions@[i] == execution_of(order0, book0[i], done[i]),
            remaining > 0 ==> done.len() <= book0.len() && opposing_orders@ == book0.skip(done.len() as int),
        decreases opposing_orders@.len(), remaining,
    {
        let ghost cur = opposing_orders@;
        assert(cur[0] == book0[done.len() as int]);
        let best_quantity = opposing_orders[0].quantity;
        let best_price = opposing_orders[0].price;
        let traded = if remaining >= best_quantity { best_quantity } else { remaining };
        let completed_best_order = OrderRequest {
            broker_id: opposing_orders[0].broker_id,
            client_id: opposing_orders[0].client_id,
            order_id: opposing_orders[0].order_id.clone(),
            stock_symbol: opposing_orders[0].stock_symbol.clone(),
            order_type: opposing_orders[0].order_type,
            order_action: opposing_orders[0].order_action,
            price: best_price,
            quantity: traded,
            status: OrderStatus::Completed,
        };
        let completed_order = OrderRequest {
            broker_id: order.broker_id,
            client_id: order.client_id,
            order_id: order.order_id.clone(),
            stock_symbol: order.stock_symbol.clone(),
            order_type: order.order_type,
            order_action: order.order_action,
            price: best_price,
            quantity: traded,
            status: OrderStatus::Completed,
        };
        let updated_stock = Stock { name: opposing_orders[0].stock_symbol.clone(), price: best_price };
        executions.push(Execution { completed_best_order, completed_order, updated_stock });
        if remaining >= best_quantity {
            remaining = remaining - best_quantity;
            opposing_orders.remove(0);
            proof {
                assert(opposing_orders@ =~= cur.drop_first());
                assert(done.push(best_quantity) + fills(remaining, opposing_orders@) =~= done + fills(
                    (remaining + best_quantity) as usize,
                    cur,
                ));
                lemma_total_push(done, best_quantity);
                done = done.push(best_quantity);
                if remaining > 0 {
                    assert(opposing_orders@ =~= book0.skip(done.len() as int));
                }
            }
        } else {
            let mut best = opposing_orders.remove(0);
            best.quantity = best.quantity - remaining;
            opposing_orders.insert(0, best);
            proof {
                assert(opposing_orders@ =~= seq![with_quantity(cur[0], (cur[0].quantity - remaining) as usize)]
                    + cur.drop_first());
                assert(fills(0, opposing_orders@) =~= seq![]);
                assert(done.push(remaining) + seq![] =~= done + seq![remaining]);
                lemma_total_push(done, remaining);
                done = done.push(remaining);
            }
            remaining = 0;
        }
    }
    proof {
        assert(fills(remaining, opposing_orders@) =~= seq![]);
        assert(done + seq![] =~= done);
    }
    proof {
        lemma_fills_conserve(q0, book0);
        lemma_trading_laws(order0, book0, executions@);
    }
    order.quantity = remaining;
    (remaining == 0, executions)
}

} // verus!
