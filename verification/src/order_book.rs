use vstd::prelude::*;

use crate::log::Logger;
use crate::matching::{
    book_after_fills, execute_market_order, execution_of, fills, lemma_fills_keep_sorted,
    market_trading_laws, total, traded_quantity, Execution,
};
use crate::order::{OrderAction, OrderRequest, OrderType};
use crate::priority::{
    at_price, in_price_order, lemma_in_price_order_iff_sorted, lemma_priority_sort_laws,
    lemma_priority_sort_sorted_permutation, priority_sort, priority_sorted, sort_by_priority,
};

verus! {

/// The resting limit orders of one stock: bids best (highest) first, asks
/// best (lowest) first, each price level in arrival order.
#[derive(Clone, Debug, PartialEq)]
pub struct OrderBook {
    pub buy_orders: Vec<OrderRequest>,
    pub sell_orders: Vec<OrderRequest>,
}

/// Handles the order books of the exchange and logs their trades.
#[derive(Clone, Debug)]
pub struct OrderBookHandler {
    pub name: String,
    pub logger: Logger,
}

impl OrderBookHandler {
    /// A handler called `name` that logs through `logger`.
    pub fn new(name: &str, logger: Logger) -> (res: OrderBookHandler)
        ensures
            res.name@ == name@,
            res.logger == logger,
    {
        OrderBookHandler { name: name.to_owned(), logger }
    }
}

/// The side of the book on which an order with `action` rests.
pub open spec fn own_side(book: OrderBook, action: OrderAction) -> Seq<OrderRequest> {
    match action {
        OrderAction::Buy => book.buy_orders@,
        OrderAction::Sell => book.sell_orders@,
    }
}

/// The side of the book against which an order with `action` trades.
pub open spec fn opposing_side(book: OrderBook, action: OrderAction) -> Seq<OrderRequest> {
    match action {
        OrderAction::Buy => book.sell_orders@,
        OrderAction::Sell => book.buy_orders@,
    }
}

/// The other side.
pub open spec fn other(action: OrderAction) -> OrderAction {
    match action {
        OrderAction::Buy => OrderAction::Sell,
        OrderAction::Sell => OrderAction::Buy,
    }
}

/// The quantity of a market order that the opposing side cannot fill.
pub open spec fn market_remainder(order: OrderRequest, book: OrderBook) -> usize {
    (order.quantity - total(fills(order.quantity, opposing_side(book, order.order_action)))) as usize
}

/// The order that comes to rest in the book after `order` arrives, if any:
/// a limit order as it came, or the unfilled part of a market order turned
/// into a limit order.
pub open spec fn resting_order(order: OrderRequest, book: OrderBook) -> Option<OrderRequest> {
    match order.order_type {
        OrderType::Limit => Some(order),
        OrderType::Market => if market_remainder(order, book) == 0 {
            None
        } else {
            Some(OrderRequest {
                quantity: market_remainder(order, book),
                order_type: OrderType::Limit,
                ..order
            })
        },
    }
}

/// Both sides are in price priority order.
pub open spec fn well_ordered(book: OrderBook) -> bool {
    priority_sorted(book.buy_orders@, OrderAction::Buy) && priority_sorted(book.sell_orders@, OrderAction::Sell)
}

impl OrderBook {
    /// An empty book.
    pub fn new() -> (res: OrderBook)
        ensures
            res.buy_orders@ == Seq::<OrderRequest>::empty(),
            res.sell_orders@ == Seq::<OrderRequest>::empty(),
    {
        OrderBook { buy_orders: Vec::new(), sell_orders: Vec::new() }
    }

    /// Puts `order` on its own side and sorts that side by price priority.
    fn rest(&mut self, order: OrderRequest)
        ensures
            own_side(*final(self), order.order_action) == priority_sort(
                own_side(*old(self), order.order_action).push(order),
                order.order_action,
            ),
            opposing_side(*final(self), order.order_action) == opposing_side(*old(self), order.order_action),
    {
        match order.order_action {
            OrderAction::Buy => {
                self.buy_orders.push(order);
                sort_by_priority(&mut self.buy_orders, OrderAction::Buy);
            },
            OrderAction::Sell => {
                self.sell_orders.push(order);
                sort_by_priority(&mut self.sell_orders, OrderAction::Sell);
            },
        }
    }

    /// Takes in one order: a market order trades at once against the
    /// opposing side and any unfilled part rests as a limit order; a limit
    /// order rests on its own side. Returns the trades in the order they
    /// happened.
    pub fn add_order(&mut self, order: OrderRequest) -> (executions: Vec<Execution>)
        ensures
            order.order_type == OrderType::Limit ==> executions@.len() == 0
                && opposing_side(*final(self), order.order_action) == opposing_side(*old(self), order.order_action),
            order.order_type == OrderType::Market ==> {
                &&& executions@.len() == fills(order.quantity, opposing_side(*old(self), order.order_action)).len()
                &&& forall|i: int| 0 <= i < executions@.len() ==> #[trigger] executions@[i] == execution_of(
                    order,
                    opposing_side(*old(self), order.order_action)[i],
                    fills(order.quantity, opposing_side(*old(self), order.order_action))[i],
                )
                &&& opposing_side(*final(self), order.order_action) == book_after_fills(
                    order.quantity,
                    opposing_side(*old(self), order.order_action),
                )
            },
            own_side(*final(self), order.order_action) == match resting_order(order, *old(self)) {
                Some(r) => priority_sort(own_side(*old(self), order.order_action).push(r), order.order_action),
                None => own_side(*old(self), order.order_action),
            },
            well_ordered(*old(self)) ==> well_ordered(*final(self)),
            // Laws, stated without the specification functions above:
            // a market order trades by price-time priority against the
            // opposing side, and what it does not trade comes to rest;
            order.order_type == OrderType::Market ==> {
                &&& traded_quantity(executions@) <= order.quantity
                &&& market_trading_laws(
                    order,
                    opposing_side(*old(self), order.order_action),
                    opposing_side(*final(self), order.order_action),
                    executions@,
                    (order.quantity - traded_quantity(executions@)) as usize,
                )
                &&& traded_quantity(executions@) == order.quantity ==> own_side(*final(self), order.order_action)
                    == own_side(*old(self), order.order_action)
                &&& traded_quantity(executions@) < order.quantity ==> {
                    let rest = OrderRequest {
                        quantity: (order.quantity - traded_quantity(executions@)) as usize,
                        order_type: OrderType::Limit,
                        ..order
                    };
                    &&& own_side(*final(self), order.order_action).to_multiset() == own_side(
                        *old(self),
                        order.order_action,
                    ).to_multiset().insert(rest)
                    &&& in_price_order(own_side(*final(self), order.order_action), order.order_action)
                    &&& forall|p: u64| #[trigger] at_price(own_side(*final(self), order.order_action), p)
                        == at_price(own_side(*old(self), order.order_action).push(rest), p)
                }
            },
            // a limit order rests on its own side, by price, behind the
            // orders at its price, and trades nothing;
            order.order_type == OrderType::Limit ==> {
                &&& own_side(*final(self), order.order_action).to_multiset() == own_side(
                    *old(self),
                    order.order_action,
                ).to_multiset().insert(order)
                &&& in_price_order(own_side(*final(self), order.order_action), order.order_action)
                &&& forall|p: u64| #[trigger] at_price(own_side(*final(self), order.order_action), p)
                    == at_price(own_side(*old(self), order.order_action).push(order), p)
            },
            // and a side in price order stays in price order.
            in_price_order(old(self).buy_orders@, OrderAction::Buy) && in_price_order(
                old(self).sell_orders@,
                OrderAction::Sell,
            ) ==> in_price_order(final(self).buy_orders@, OrderAction::Buy) && in_price_order(
                final(self).sell_orders@,
                OrderAction::Sell,
            ),
    {
        let ghost old_book = *self;
        let action = order.order_action;
        let executions = match order.order_type {
            OrderType::Market => {
                let mut order = order;
                let (filled, executions) = match action {
                    OrderAction::Buy => execute_market_order(&mut order, &mut self.sell_orders),
                    OrderAction::Sell => execute_market_order(&mut order, &mut self.buy_orders),
                };
                if !filled {
                    order.order_type = OrderType::Limit;
                    self.rest(order);
                }
                executions
            },
            OrderType::Limit => {
                self.rest(order);
                Vec::new()
            },
        };
        proof {
            let own = own_side(*self, action);
            match resting_order(order, old_book) {
                Some(r) => lemma_priority_sort_laws(own_side(old_book, action).push(r), action),
                None => {},
            }
            vstd::seq_lib::to_multiset_build(own_side(old_book, action), order);
            if order.order_type == OrderType::Market {
                vstd::seq_lib::to_multiset_build(
                    own_side(old_book, action),
                    OrderRequest { quantity: market_remainder(order, old_book), order_type: OrderType::Limit, ..order },
                );
            }
            lemma_in_price_order_iff_sorted(old_book.buy_orders@, OrderAction::Buy);
            lemma_in_price_order_iff_sorted(old_book.sell_orders@, OrderAction::Sell);
            lemma_in_price_order_iff_sorted(self.buy_orders@, OrderAction::Buy);
            lemma_in_price_order_iff_sorted(self.sell_orders@, OrderAction::Sell);
            lemma_priority_sort_sorted_permutation(own, action);
            if well_ordered(old_book) {
                lemma_fills_keep_sorted(order.quantity, opposing_side(old_book, action), other(action));
                match resting_order(order, old_book) {
                    Some(r) => lemma_priority_sort_sorted_permutation(own_side(old_book, action).push(r), action),
                    None => {},
                }
            }
        }
        executions
    }
}

} // verus!
