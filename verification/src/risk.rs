use vstd::prelude::*;

use crate::order::{OrderRequest, OrderStatus};
use crate::stock::MapStock;

verus! {

/// The largest quantity that one order may ask for.
pub const MAX_ORDER_QUANTITY: usize = 1000;

/// What risk validation does with an order.
#[derive(Clone, Debug, PartialEq)]
pub enum RiskDecision {
    /// The order passes and goes on to the order book unchanged.
    Accepted(OrderRequest),
    /// The order fails a rule and is returned marked rejected.
    Rejected(OrderRequest),
}

/// `price` lies more than 20% below or above the stock's current price.
pub open spec fn price_out_of_band(price: u64, stock_price: u64) -> bool {
    10 * price < 8 * stock_price || 10 * price > 12 * stock_price
}

/// The order asks for more than the largest quantity allowed.
pub open spec fn quantity_too_large(quantity: usize) -> bool {
    quantity > MAX_ORDER_QUANTITY
}

/// The decision that the risk rules give for `order` when its stock trades
/// at `stock_price`.
pub open spec fn risk_verdict(order: OrderRequest, stock_price: u64) -> RiskDecision {
    if price_out_of_band(order.price, stock_price) || quantity_too_large(order.quantity) {
        RiskDecision::Rejected(OrderRequest { status: OrderStatus::Rejected, ..order })
    } else {
        RiskDecision::Accepted(order)
    }
}

/// Applies the risk rules to `order`, whose stock trades at `stock_price`:
/// its price must lie within 20% of the stock's price, and its quantity may
/// not exceed 1000.
pub fn check_order(order: OrderRequest, stock_price: u64) -> (res: RiskDecision)
    ensures
        res == risk_verdict(order, stock_price),
        // The rules, stated on the numbers: rejected exactly when the price
        // lies below 80% or above 120% of the stock's price, or the quantity
        // exceeds 1000; a rejected order differs only in its status, an
        // accepted one not at all.
        res is Rejected <==> (10 * order.price < 8 * stock_price || 10 * order.price > 12 * stock_price
            || order.quantity > 1000),
        res matches RiskDecision::Rejected(r) ==> r == (OrderRequest { status: OrderStatus::Rejected, ..order }),
        res matches RiskDecision::Accepted(a) ==> a == order,
{
    let price = order.price as u128;
    let reference = stock_price as u128;
    let mut rejected = false;
    if price * 10 < reference * 8 || price * 10 > reference * 12 {
        rejected = true;
    }
    if order.quantity > MAX_ORDER_QUANTITY {
        rejected = true;
    }
    if rejected {
        let mut order = order;
        order.status = OrderStatus::Rejected;
        RiskDecision::Rejected(order)
    } else {
        RiskDecision::Accepted(order)
    }
}

/// Applies the risk rules to `order` at the current price of its stock.
pub fn evaluate_order(order: OrderRequest, stock: &MapStock) -> (res: RiskDecision)
    requires
        stock@.dom().contains(order.stock_symbol@),
    ensures
        res == risk_verdict(order, stock@[order.stock_symbol@]),
        res is Rejected <==> (10 * order.price < 8 * stock@[order.stock_symbol@] || 10 * order.price > 12
            * stock@[order.stock_symbol@] || order.quantity > 1000),
        res matches RiskDecision::Rejected(r) ==> r == (OrderRequest { status: OrderStatus::Rejected, ..order }),
        res matches RiskDecision::Accepted(a) ==> a == order,
{
    let stock_price = stock.read(order.stock_symbol.as_str()).unwrap();
    check_order(order, stock_price)
}

} // verus!
