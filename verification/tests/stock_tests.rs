use stock::order::{OrderAction, OrderRequest, OrderStatus, OrderType};
use stock::risk::{check_order, evaluate_order, RiskDecision};
use stock::simulation::{price_maker, random_order};
use stock::stock::MapStock;

fn order(price: u64, quantity: usize) -> OrderRequest {
    OrderRequest::new(1, 2, "order9", "APPL", OrderType::Limit, OrderAction::Buy, price, quantity, OrderStatus::Pending)
}

#[test]
fn listed_stocks_start_at_one_hundred() {
    let m = MapStock::new();
    assert_eq!(m.read("APPL"), Some(10000));
    assert_eq!(m.read("HD"), Some(10000));
    assert_eq!(m.read("XYZ"), None);
    let names = m.get_stock_names();
    assert_eq!(names.len(), 60);
    let mut sorted = names.clone();
    sorted.sort();
    sorted.dedup();
    assert_eq!(sorted.len(), 60);
    assert!(names.iter().any(|n| n == "SBUX"));
}

#[test]
fn order_within_band_is_accepted() {
    assert_eq!(check_order(order(9000, 10), 10000), RiskDecision::Accepted(order(9000, 10)));
}

#[test]
fn band_edges_are_accepted() {
    assert!(matches!(check_order(order(8000, 1), 10000), RiskDecision::Accepted(_)));
    assert!(matches!(check_order(order(12000, 1), 10000), RiskDecision::Accepted(_)));
    assert!(matches!(check_order(order(9000, 1000), 10000), RiskDecision::Accepted(_)));
}

#[test]
fn price_below_band_is_rejected() {
    let mut expected = order(7999, 1);
    expected.status = OrderStatus::Rejected;
    assert_eq!(check_order(order(7999, 1), 10000), RiskDecision::Rejected(expected));
}

#[test]
fn price_above_band_is_rejected() {
    assert!(matches!(check_order(order(12001, 1), 10000), RiskDecision::Rejected(_)));
}

#[test]
fn quantity_above_limit_is_rejected() {
    match check_order(order(10000, 1001), 10000) {
        RiskDecision::Rejected(o) => {
            assert_eq!(o.status, OrderStatus::Rejected);
            assert_eq!(o.quantity, 1001);
        }
        RiskDecision::Accepted(_) => panic!("accepted an order above the quantity limit"),
    }
}

#[test]
fn evaluation_uses_current_stock_price() {
    let m = MapStock::new();
    assert!(matches!(evaluate_order(order(10500, 5), &m), RiskDecision::Accepted(_)));
    assert!(matches!(evaluate_order(order(5000, 5), &m), RiskDecision::Rejected(_)));
}

#[test]
fn market_orders_are_priced_at_one_hundred() {
    assert_eq!(price_maker(OrderAction::Buy, OrderType::Market), 10000);
    assert_eq!(price_maker(OrderAction::Sell, OrderType::Market), 10000);
}

#[test]
fn limit_prices_lie_in_their_ranges() {
    for _ in 0..200 {
        let b = price_maker(OrderAction::Buy, OrderType::Limit);
        assert!((7900..=9900).contains(&b));
        let s = price_maker(OrderAction::Sell, OrderType::Limit);
        assert!((10100..=12100).contains(&s));
    }
}

#[test]
fn random_orders_are_well_formed() {
    for _ in 0..200 {
        let o = random_order();
        assert!((1..=10).contains(&o.broker_id));
        assert!((1..=10).contains(&o.client_id));
        let n: u64 = o.order_id.strip_prefix("order").unwrap().parse().unwrap();
        assert!((6..=100).contains(&n));
        assert!(["APPL", "MSFT", "GOOG", "AMZN", "TSLA"].contains(&o.stock_symbol.as_str()));
        assert!((1..=10).contains(&o.quantity));
        assert_eq!(o.status, OrderStatus::Pending);
        match (o.order_type, o.order_action) {
            (OrderType::Market, _) => assert_eq!(o.price, 10000),
            (OrderType::Limit, OrderAction::Buy) => assert!((7900..=9900).contains(&o.price)),
            (OrderType::Limit, OrderAction::Sell) => assert!((10100..=12100).contains(&o.price)),
        }
    }
}

#[test]
fn simulated_order_uses_drawn_values() {
    let o = stock::simulation::simulated_order(OrderAction::Sell, OrderType::Limit, 3, 7, 42, 2, 10550, 6);
    assert_eq!(o.order_id, "order42");
    assert_eq!(o.stock_symbol, "GOOG");
    assert_eq!(o.broker_id, 3);
    assert_eq!(o.client_id, 7);
    assert_eq!(o.order_action, OrderAction::Sell);
    assert_eq!(o.order_type, OrderType::Limit);
    assert_eq!(o.price, 10550);
    assert_eq!(o.quantity, 6);
    assert_eq!(o.status, OrderStatus::Pending);
    let p = stock::simulation::simulated_order(OrderAction::Buy, OrderType::Market, 1, 1, 100, 4, 10000, 1);
    assert_eq!(p.order_id, "order100");
    assert_eq!(p.stock_symbol, "TSLA");
    let q = stock::simulation::simulated_order(OrderAction::Buy, OrderType::Market, 1, 1, 6, 0, 10000, 1);
    assert_eq!(q.order_id, "order6");
    assert_eq!(q.stock_symbol, "APPL");
}
