use vstd::prelude::*;

verus! {

/// Lifecycle state of an order.
#[derive(Clone, Copy, Debug, PartialEq, Eq, Structural)]
pub enum OrderStatus {
    Pending,
    Completed,
    Rejected,
}

/// Side of an order.
#[derive(Clone, Copy, Debug, PartialEq, Eq, Structural)]
pub enum OrderAction {
    Buy,
    Sell,
}

/// A market order executes against the book at once; a limit order rests in it.
#[derive(Clone, Copy, Debug, PartialEq, Eq, Structural)]
pub enum OrderType {
    Market,
    Limit,
}

/// An order sent by a broker on behalf of a client.
///
/// `price` is in hundredths of the currency unit.
#[derive(Clone, Debug, PartialEq)]
pub struct OrderRequest {
    pub broker_id: u64,
    pub client_id: u64,
    pub order_id: String,
    pub stock_symbol: String,
    pub order_type: OrderType,
    pub order_action: OrderAction,
    pub price: u64,
    pub quantity: usize,
    pub status: OrderStatus,
}

impl OrderRequest {
    pub fn new(
        broker_id: u64,
        client_id: u64,
        order_id: &str,
        stock_symbol: &str,
        order_type: OrderType,
        order_action: OrderAction,
        price: u64,
        quantity: usize,
        status: OrderStatus,
    ) -> (res: OrderRequest)
        ensures
            res.broker_id == broker_id,
            res.client_id == client_id,
            res.order_id@ == order_id@,
            res.stock_symbol@ == stock_symbol@,
            res.order_type == order_type,
            res.order_action == order_action,
            res.price == price,
            res.quantity == quantity,
            res.status == status,
    {
        OrderRequest {
            broker_id,
            client_id,
            order_id: order_id.to_owned(),
            stock_symbol: stock_symbol.to_owned(),
            order_type,
            order_action,
            price,
            quantity,
            status,
        }
    }
}

} // verus!
