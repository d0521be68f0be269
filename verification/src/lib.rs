//! The decision core of a trading system for the bars of crypto pairs.
//!
//! Bars come from downloaded archives or from a live stream. A strategy takes
//! each bar in and gives a signal; the signal is turned into an action on the
//! book, from flat to long or short and back, and the action into the
//! direction held next. Prices and volumes are fixed-point amounts in units
//! of `10^-8`, read from and written to the exchange's decimal text exactly.
//!
//! - `strategy::decision`: directions, actions, the book, and the two steps
//!   from a signal to a position.
//! - `strategy::simple`: momentum on two bars, and a moving-average crossover
//!   over a sliding window.
//! - `driver`: one turn of the consumption loop, the replay of a run of bars,
//!   and the order in which archived bars are replayed.
//! - `models`: the bars, and the reader of an archive's lines.
//! - `decimal`, `text`: decimal amounts and delimited text.
//! - `math`: the layout of an augmented Dickey-Fuller regression, and the
//!   exact test of whether a series has variance.
//! - `timestamp`: the readings of the exchange's clock.
//! - `binance`: the names and addresses of the exchange's archives, streams
//!   and listings.

pub mod binance;
pub mod decimal;
pub mod driver;
pub mod errors;
pub mod math;
pub mod models;
pub mod strategy;
pub mod text;
pub mod timestamp;
