# stock

The core of a stock exchange simulator: order books with price-time
priority, market-order matching, risk validation of incoming orders, the
table of listed stocks, and the generator of simulated orders.

- `src/` is the verified library. Prices are whole numbers of hundredths of
  the currency unit, so that comparisons and the ±20% price band are exact.
  - `order`: orders, their side, kind and status.
  - `stock`: the listed stocks and their prices.
  - `priority`: the stable price-priority sort of a book side, and its laws.
  - `matching`: execution of a market order against the opposing side, and
    its conservation laws.
  - `order_book`: the two sides of a stock's book and how one order changes it.
  - `risk`: the risk rules.
  - `log`: the trade log's file name.
  - `simulation`: random orders for testing the system.
- `app/` is the program around it: Kafka producers and consumer, the tokio
  tasks and channels, the JSON order book files and the trade log. It keeps
  copies of the library's types with serde's derives, where prices are
  decimal numbers; a price that is not a whole number of cents is rounded to
  the nearest cent on its way into the library.
