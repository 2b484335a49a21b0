use stock::matching::execute_market_order;
use stock::order::{OrderAction, OrderRequest, OrderStatus, OrderType};
use stock::order_book::{OrderBook, OrderBookHandler};
use stock::log::Logger;
use stock::priority::sort_by_priority;

fn order(id: &str, action: OrderAction, order_type: OrderType, price: u64, quantity: usize) -> OrderRequest {
    OrderRequest::new(1, 2, id, "APPL", order_type, action, price, quantity, OrderStatus::Pending)
}

fn ids(v: &[OrderRequest]) -> Vec<String> {
    v.iter().map(|o| o.order_id.clone()).collect()
}

#[test]
fn new_order_request_keeps_fields() {
    let o = OrderRequest::new(3, 4, "order7", "MSFT", OrderType::Limit, OrderAction::Sell, 10150, 9, OrderStatus::Pending);
    assert_eq!(o.broker_id, 3);
    assert_eq!(o.client_id, 4);
    assert_eq!(o.order_id, "order7");
    assert_eq!(o.stock_symbol, "MSFT");
    assert_eq!(o.order_type, OrderType::Limit);
    assert_eq!(o.order_action, OrderAction::Sell);
    assert_eq!(o.price, 10150);
    assert_eq!(o.quantity, 9);
    assert_eq!(o.status, OrderStatus::Pending);
}

#[test]
fn empty_order_book() {
    let b = OrderBook::new();
    assert!(b.buy_orders.is_empty());
    assert!(b.sell_orders.is_empty());
}

#[test]
fn handler_keeps_name_and_logger() {
    let h = OrderBookHandler::new("order_book", Logger::new("order_book.log"));
    assert_eq!(h.name, "order_book");
    assert_eq!(h.logger.file_path(), "order_book.log");
}

#[test]
fn bids_sort_highest_first_keeping_arrival_order() {
    let mut v = vec![
        order("a", OrderAction::Buy, OrderType::Limit, 9000, 1),
        order("b", OrderAction::Buy, OrderType::Limit, 9500, 1),
        order("c", OrderAction::Buy, OrderType::Limit, 9000, 1),
        order("d", OrderAction::Buy, OrderType::Limit, 9900, 1),
        order("e", OrderAction::Buy, OrderType::Limit, 9500, 1),
    ];
    sort_by_priority(&mut v, OrderAction::Buy);
    assert_eq!(ids(&v), vec!["d", "b", "e", "a", "c"]);
}

#[test]
fn asks_sort_lowest_first_keeping_arrival_order() {
    let mut v = vec![
        order("a", OrderAction::Sell, OrderType::Limit, 11000, 1),
        order("b", OrderAction::Sell, OrderType::Limit, 10500, 1),
        order("c", OrderAction::Sell, OrderType::Limit, 11000, 1),
        order("d", OrderAction::Sell, OrderType::Limit, 10100, 1),
    ];
    sort_by_priority(&mut v, OrderAction::Sell);
    assert_eq!(ids(&v), vec!["d", "b", "a", "c"]);
}

#[test]
fn sorting_a_sorted_side_changes_nothing() {
    let mut v = vec![
        order("a", OrderAction::Sell, OrderType::Limit, 10100, 1),
        order("b", OrderAction::Sell, OrderType::Limit, 10100, 2),
        order("c", OrderAction::Sell, OrderType::Limit, 12000, 3),
    ];
    let before = v.clone();
    sort_by_priority(&mut v, OrderAction::Sell);
    assert_eq!(v, before);
}

#[test]
fn market_order_consumes_best_orders_whole() {
    let mut m = order("m", OrderAction::Buy, OrderType::Market, 10000, 7);
    let mut asks = vec![
        order("a", OrderAction::Sell, OrderType::Limit, 10100, 3),
        order("b", OrderAction::Sell, OrderType::Limit, 10200, 4),
        order("c", OrderAction::Sell, OrderType::Limit, 10300, 5),
    ];
    let (filled, execs) = execute_market_order(&mut m, &mut asks);
    assert!(filled);
    assert_eq!(m.quantity, 0);
    assert_eq!(ids(&asks), vec!["c"]);
    assert_eq!(asks[0].quantity, 5);
    assert_eq!(execs.len(), 2);
    assert_eq!(execs[0].completed_best_order.order_id, "a");
    assert_eq!(execs[0].completed_best_order.quantity, 3);
    assert_eq!(execs[0].completed_best_order.status, OrderStatus::Completed);
    assert_eq!(execs[0].completed_order.order_id, "m");
    assert_eq!(execs[0].completed_order.price, 10100);
    assert_eq!(execs[0].completed_order.quantity, 3);
    assert_eq!(execs[0].completed_order.order_type, OrderType::Market);
    assert_eq!(execs[0].updated_stock.name, "APPL");
    assert_eq!(execs[0].updated_stock.price, 10100);
    assert_eq!(execs[1].completed_best_order.order_id, "b");
    assert_eq!(execs[1].completed_best_order.quantity, 4);
    assert_eq!(execs[1].completed_order.price, 10200);
    assert_eq!(execs[1].updated_stock.price, 10200);
}

#[test]
fn market_order_takes_part_of_best_order() {
    let mut m = order("m", OrderAction::Sell, OrderType::Market, 10000, 2);
    let mut bids = vec![
        order("a", OrderAction::Buy, OrderType::Limit, 9900, 5),
        order("b", OrderAction::Buy, OrderType::Limit, 9800, 4),
    ];
    let (filled, execs) = execute_market_order(&mut m, &mut bids);
    assert!(filled);
    assert_eq!(m.quantity, 0);
    assert_eq!(ids(&bids), vec!["a", "b"]);
    assert_eq!(bids[0].quantity, 3);
    assert_eq!(bids[0].status, OrderStatus::Pending);
    assert_eq!(execs.len(), 1);
    assert_eq!(execs[0].completed_best_order.quantity, 2);
    assert_eq!(execs[0].completed_best_order.price, 9900);
    assert_eq!(execs[0].completed_order.quantity, 2);
    assert_eq!(execs[0].completed_order.price, 9900);
}

#[test]
fn market_order_larger_than_book_leaves_remainder() {
    let mut m = order("m", OrderAction::Buy, OrderType::Market, 10000, 10);
    let mut asks = vec![
        order("a", OrderAction::Sell, OrderType::Limit, 10100, 3),
        order("b", OrderAction::Sell, OrderType::Limit, 10200, 4),
    ];
    let (filled, execs) = execute_market_order(&mut m, &mut asks);
    assert!(!filled);
    assert_eq!(m.quantity, 3);
    assert!(asks.is_empty());
    assert_eq!(execs.len(), 2);
    let traded: usize = execs.iter().map(|e| e.completed_order.quantity).sum();
    assert_eq!(traded + m.quantity, 10);
}

#[test]
fn market_order_against_empty_side_trades_nothing() {
    let mut m = order("m", OrderAction::Buy, OrderType::Market, 10000, 4);
    let mut asks: Vec<OrderRequest> = Vec::new();
    let (filled, execs) = execute_market_order(&mut m, &mut asks);
    assert!(!filled);
    assert_eq!(m.quantity, 4);
    assert!(execs.is_empty());
}

#[test]
fn zero_quantity_market_order_is_filled() {
    let mut m = order("m", OrderAction::Buy, OrderType::Market, 10000, 0);
    let mut asks = vec![order("a", OrderAction::Sell, OrderType::Limit, 10100, 3)];
    let (filled, execs) = execute_market_order(&mut m, &mut asks);
    assert!(filled);
    assert!(execs.is_empty());
    assert_eq!(asks.len(), 1);
}

#[test]
fn exact_match_removes_best_order() {
    let mut m = order("m", OrderAction::Buy, OrderType::Market, 10000, 3);
    let mut asks = vec![
        order("a", OrderAction::Sell, OrderType::Limit, 10100, 3),
        order("b", OrderAction::Sell, OrderType::Limit, 10200, 4),
    ];
    let (filled, execs) = execute_market_order(&mut m, &mut asks);
    assert!(filled);
    assert_eq!(execs.len(), 1);
    assert_eq!(ids(&asks), vec!["b"]);
}

#[test]
fn limit_order_rests_at_its_priority_position() {
    let mut book = OrderBook::new();
    book.add_order(order("a", OrderAction::Buy, OrderType::Limit, 9000, 1));
    book.add_order(order("b", OrderAction::Buy, OrderType::Limit, 9500, 1));
    book.add_order(order("c", OrderAction::Buy, OrderType::Limit, 9500, 1));
    let execs = book.add_order(order("d", OrderAction::Buy, OrderType::Limit, 9200, 1));
    assert!(execs.is_empty());
    assert_eq!(ids(&book.buy_orders), vec!["b", "c", "d", "a"]);
    assert!(book.sell_orders.is_empty());
}

#[test]
fn market_remainder_rests_as_limit_order() {
    let mut book = OrderBook::new();
    book.add_order(order("s1", OrderAction::Sell, OrderType::Limit, 10100, 2));
    book.add_order(order("b1", OrderAction::Buy, OrderType::Limit, 9900, 1));
    let execs = book.add_order(order("m", OrderAction::Buy, OrderType::Market, 10000, 5));
    assert_eq!(execs.len(), 1);
    assert_eq!(execs[0].completed_order.quantity, 2);
    assert!(book.sell_orders.is_empty());
    assert_eq!(ids(&book.buy_orders), vec!["m", "b1"]);
    assert_eq!(book.buy_orders[0].order_type, OrderType::Limit);
    assert_eq!(book.buy_orders[0].quantity, 3);
    assert_eq!(book.buy_orders[0].price, 10000);
}

#[test]
fn filled_market_order_does_not_rest() {
    let mut book = OrderBook::new();
    book.add_order(order("b1", OrderAction::Buy, OrderType::Limit, 9900, 5));
    let execs = book.add_order(order("m", OrderAction::Sell, OrderType::Market, 10000, 5));
    assert_eq!(execs.len(), 1);
    assert!(book.buy_orders.is_empty());
    assert!(book.sell_orders.is_empty());
}
