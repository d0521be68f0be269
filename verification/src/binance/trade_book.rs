use vstd::prelude::*;

verus! {

/// One update of the order book's depth as the exchange streams it: the bids
/// and asks that changed, each a price and a quantity in the exchange's own
/// decimal text.
#[allow(non_snake_case)]
#[derive(Debug, Clone)]
pub struct DiffDepthStream {
    /// Event type.
    pub e: String,
    /// Event time, in milliseconds since the epoch.
    pub E: u64,
    /// Symbol.
    pub s: String,
    /// First update id in the event.
    pub U: u64,
    /// Final update id in the event.
    pub u: u64,
    /// Bids: price, then quantity.
    pub b: Vec<[String; 2]>,
    /// Asks: price, then quantity.
    pub a: Vec<[String; 2]>,
}

} // verus!
