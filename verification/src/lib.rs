//! Retirement-projection engine over fixed-point arithmetic.
//!
//! Amounts of money, rates and spans of years are carried as signed
//! fixed-point numbers: an `i64` counting units of `1 / fixed::SCALE`.
//! The engine derives time statistics from a parameter snapshot and
//! projects account balances with the classical compound-interest
//! formulas, with and without a periodic contribution.

pub mod financial;
pub mod fixed;
pub mod formulas;
