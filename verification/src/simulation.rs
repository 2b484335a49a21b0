use vstd::prelude::*;

use rand::rngs::ThreadRng;
use rand::Rng;

use crate::order::{OrderAction, OrderRequest, OrderStatus, OrderType};

verus! {

/// The price of a simulated market order: 100.00.
pub const MARKET_PRICE: u64 = 10000;

/// Simulated bids lie between 79.00 and 99.00.
pub const BID_LOW: u64 = 7900;
pub const BID_HIGH: u64 = 9900;

/// Simulated asks lie between 101.00 and 121.00.
pub const ASK_LOW: u64 = 10100;
pub const ASK_HIGH: u64 = 12100;

/// The decimal digits of `n`, most significant first.
pub open spec fn decimal(n: nat) -> Seq<char>
    decreases n,
{
    if n < 10 {
        seq![(48 + n) as char]
    } else {
        decimal(n / 10).push((48 + n % 10) as char)
    }
}

/// The stocks for which orders are simulated.
pub open spec fn simulated_symbol(s: Seq<char>) -> bool {
    simulated_symbols().contains(s)
}

/// The prices that `price_maker` may give for an order of this kind.
pub open spec fn simulated_price(action: OrderAction, order_type: OrderType, price: u64) -> bool {
    match order_type {
        OrderType::Market => price == MARKET_PRICE,
        OrderType::Limit => match action {
            OrderAction::Buy => BID_LOW <= price <= BID_HIGH,
            OrderAction::Sell => ASK_LOW <= price <= ASK_HIGH,
        },
    }
}

#[verifier::external_type_specification]
#[verifier::external_body]
pub struct ExThreadRng(rand::rngs::ThreadRng);

/// `rand::thread_rng`: a handle on the thread-local random generator.
/// Nothing is claimed of it.
#[verifier::external_body]
fn thread_rng() -> ThreadRng {
    rand::thread_rng()
}

/// `Rng::gen_range` on the inclusive range `lo..=hi` of `u64`. `rand`
/// documents that the sample lies in the range and that an empty range
/// panics; which value comes is left to chance.
#[verifier::external_body]
fn gen_range_inclusive(rng: &mut ThreadRng, lo: u64, hi: u64) -> (r: u64)
    requires
        lo <= hi,
    ensures
        lo <= r <= hi,
{
    rng.gen_range(lo..=hi)
}

/// The text of the decimal digit `d`.
fn digit_text(d: u64) -> (s: &'static str)
    requires
        d < 10,
    ensures
        s@ == seq![(48 + d) as char],
{
    proof {
        reveal_strlit("0");
        reveal_strlit("1");
        reveal_strlit("2");
        reveal_strlit("3");
        reveal_strlit("4");
        reveal_strlit("5");
        reveal_strlit("6");
        reveal_strlit("7");
        reveal_strlit("8");
        reveal_strlit("9");
    }
    if d == 0 {
        "0"
    } else if d == 1 {
        "1"
    } else if d == 2 {
        "2"
    } else if d == 3 {
        "3"
    } else if d == 4 {
        "4"
    } else if d == 5 {
        "5"
    } else if d == 6 {
        "6"
    } else if d == 7 {
        "7"
    } else if d == 8 {
        "8"
    } else {
        "9"
    }
}

/// Appends the decimal digits of `n` to `s`.
fn append_decimal(s: &mut String, n: u64)
    ensures
        final(s)@ == old(s)@ + decimal(n as nat),
    decreases n,
{
    if n >= 10 {
        append_decimal(s, n / 10);
    }
    s.append(digit_text(n % 10));
    proof {
        if n < 10 {
            assert(n % 10 == n);
        } else {
            assert(decimal(n as nat) == decimal((n / 10) as nat).push((48 + n % 10) as char));
        }
    }
}

/// The symbols of the stocks for which orders are simulated, by index.
pub open spec fn simulated_symbols() -> Seq<Seq<char>> {
    seq!["APPL"@, "MSFT"@, "GOOG"@, "AMZN"@, "TSLA"@]
}

/// A price for a simulated order: 100.00 for a market order, a random bid
/// between 79.00 and 99.00 or a random ask between 101.00 and 121.00 for a
/// limit order.
///
/// A limit price is drawn from `rand`'s thread-local generator, which panics
/// if the operating system's entropy source fails when it is seeded or
/// reseeded; no `requires` can rule that out.
pub fn price_maker(action: OrderAction, market_or_limit: OrderType) -> (price: u64)
    ensures
        simulated_price(action, market_or_limit, price),
{
    match market_or_limit {
        OrderType::Market => MARKET_PRICE,
        OrderType::Limit => match action {
            OrderAction::Buy => gen_range_inclusive(&mut thread_rng(), BID_LOW, BID_HIGH),
            OrderAction::Sell => gen_range_inclusive(&mut thread_rng(), ASK_LOW, ASK_HIGH),
        },
    }
}

/// The pending order that the simulator builds from its drawn values: id
/// "order" followed by the digits of `id_number`, the stock at
/// `symbol_index` among the five simulated ones, the other fields as given.
pub fn simulated_order(
    order_action: OrderAction,
    order_type: OrderType,
    broker_id: u64,
    client_id: u64,
    id_number: u64,
    symbol_index: u64,
    price: u64,
    quantity: usize,
) -> (order: OrderRequest)
    requires
        symbol_index < 5,
    ensures
        order.broker_id == broker_id,
        order.client_id == client_id,
        order.order_id@ == "order"@ + decimal(id_number as nat),
        order.stock_symbol@ == simulated_symbols()[symbol_index as int],
        order.order_type == order_type,
        order.order_action == order_action,
        order.price == price,
        order.quantity == quantity,
        order.status == OrderStatus::Pending,
{
    let mut order_id = String::from_str("order");
    append_decimal(&mut order_id, id_number);
    let stock_symbol = if symbol_index == 0 {
        "APPL"
    } else if symbol_index == 1 {
        "MSFT"
    } else if symbol_index == 2 {
        "GOOG"
    } else if symbol_index == 3 {
        "AMZN"
    } else {
        "TSLA"
    };
    OrderRequest::new(
        broker_id,
        client_id,
        order_id.as_str(),
        stock_symbol,
        order_type,
        order_action,
        price,
        quantity,
        OrderStatus::Pending,
    )
}

/// A random pending order, as the order simulator sends them: a random side
/// and kind priced by `price_maker`, broker and client between 1 and 10, an
/// id "order6" to "order100", one of five stocks, a quantity between 1 and 10.
///
/// Like `price_maker`, it draws from `rand`'s thread-local generator, which
/// panics if the operating system's entropy source fails when it is seeded
/// or reseeded; no `requires` can rule that out.
pub fn random_order() -> (order: OrderRequest)
    ensures
        1 <= order.broker_id <= 10,
        1 <= order.client_id <= 10,
        exists|n: nat| 6 <= n <= 100 && order.order_id@ == "order"@ + decimal(n),
        simulated_symbol(order.stock_symbol@),
        simulated_price(order.order_action, order.order_type, order.price),
        1 <= order.quantity <= 10,
        order.status == OrderStatus::Pending,
{
    let mut rng = thread_rng();
    let order_action = if gen_range_inclusive(&mut rng, 0, 1) == 0 { OrderAction::Buy } else { OrderAction::Sell };
    let order_type = if gen_range_inclusive(&mut rng, 0, 1) == 0 { OrderType::Market } else { OrderType::Limit };
    let broker_id = gen_range_inclusive(&mut rng, 1, 10);
    let client_id = gen_range_inclusive(&mut rng, 1, 10);
    let n = gen_range_inclusive(&mut rng, 6, 100);
    let symbol_index = gen_range_inclusive(&mut rng, 0, 4);
    let price = price_maker(order_action, order_type);
    let quantity = gen_range_inclusive(&mut rng, 1, 10) as usize;
    simulated_order(order_action, order_type, broker_id, client_id, n, symbol_index, price, quantity)
}

} // verus!
