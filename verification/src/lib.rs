//! Order matching, risk validation and order simulation for a stock
//! exchange simulator.
//!
//! Prices are held as integers: the number of hundredths of the currency
//! unit (cents), so that price comparisons and band checks are exact.

pub mod order;

pub mod stock;
pub mod priority;
pub mod matching;
pub mod log;
pub mod order_book;
pub mod risk;
pub mod simulation;
