use crate::errors::Error;
use crate::models::KlineEvent;
use crate::strategy::decision::{HandleStreamEvent, PositionDirection, TradingStrategy};
use std::collections::VecDeque;
use vstd::prelude::*;

verus! {

/// Momentum on the last two bars: long while the latest close is not below the
/// one before it, short otherwise.
#[derive(Debug)]
pub struct SimpleStrategy {
    current_kline: Option<KlineEvent>,
    previous_kline: Option<KlineEvent>,
}

impl SimpleStrategy {
    /// The latest bar taken in, if any.
    pub closed spec fn current(&self) -> Option<KlineEvent> {
        self.current_kline
    }

    /// The bar taken in before the latest, if any.
    pub closed spec fn previous(&self) -> Option<KlineEvent> {
        self.previous_kline
    }

    /// A strategy that has seen no bar.
    pub fn new() -> (strategy: Self)
        ensures
            strategy.current() is None,
            strategy.previous() is None,
    {
        SimpleStrategy { current_kline: None, previous_kline: None }
    }
}

impl Clone for SimpleStrategy {
    fn clone(&self) -> (copy: Self)
        ensures
            copy.current() == self.current(),
            copy.previous() == self.previous(),
    {
        SimpleStrategy {
            current_kline: self.current_kline.clone(),
            previous_kline: self.previous_kline.clone(),
        }
    }
}

impl Default for SimpleStrategy {
    fn default() -> (strategy: Self)
        ensures
            strategy.current() is None,
            strategy.previous() is None,
    {
        SimpleStrategy::new()
    }
}

impl TradingStrategy for SimpleStrategy {
    /// Long once two bars are held and the latest closed at or above the
    /// earlier one. Short in every other state, also before two bars are held.
    open spec fn signal_spec(&self) -> Option<PositionDirection> {
        if self.current() is Some && self.previous() is Some && self.current()->0.k.c
            >= self.previous()->0.k.c {
            Some(PositionDirection::Long)
        } else {
            Some(PositionDirection::Short)
        }
    }

    fn signal(&self) -> (signal: Option<PositionDirection>) {
        match (&self.current_kline, &self.previous_kline) {
            (Some(current), Some(previous)) => {
                if current.k.c >= previous.k.c {
                    Some(PositionDirection::Long)
                } else {
                    Some(PositionDirection::Short)
                }
            },
            _ => Some(PositionDirection::Short),
        }
    }
}

impl<'a> HandleStreamEvent<&'a KlineEvent> for SimpleStrategy {
    /// Every bar is taken in.
    open spec fn accepts(&self, event: &'a KlineEvent) -> bool {
        true
    }

    /// The latest bar becomes the earlier one and the event becomes the latest.
    open spec fn ingests(&self, event: &'a KlineEvent, next: &Self) -> bool {
        &&& next.current() == Some(*event)
        &&& next.previous() == self.current()
    }

    fn handle_stream_event(&mut self, event: &'a KlineEvent) -> (outcome: Result<(), Error>) {
        self.previous_kline = self.current_kline.take();
        self.current_kline = Some(event.clone());
        Ok(())
    }
}

/// The sum of the closing prices of a window of bars.
pub open spec fn close_sum(window: Seq<KlineEvent>) -> int
    decreases window.len(),
{
    if window.len() == 0 {
        0
    } else {
        close_sum(window.drop_last()) + window.last().k.c
    }
}

/// The window after one more bar: the oldest bar leaves a full window before
/// the new one enters at the end.
pub open spec fn slide(window: Seq<KlineEvent>, capacity: nat, event: KlineEvent) -> Seq<
    KlineEvent,
> {
    if window.len() >= capacity {
        window.skip(1).push(event)
    } else {
        window.push(event)
    }
}

/// Whether the latest close of a window lies strictly above the window's
/// arithmetic mean. The mean is `close_sum / len`; the comparison is made
/// exactly, without dividing.
pub open spec fn closes_above_mean(window: Seq<KlineEvent>) -> bool {
    window.len() > 0 && window.last().k.c * window.len() > close_sum(window)
}

proof fn lemma_close_sum_bounds(window: Seq<KlineEvent>)
    ensures
        -0x8000_0000_0000_0000 * window.len() <= close_sum(window) <= 0x7fff_ffff_ffff_ffff
            * window.len(),
    decreases window.len(),
{
    if window.len() > 0 {
        lemma_close_sum_bounds(window.drop_last());
    }
}

/// Moving-average crossover over a sliding window of bars: long while the
/// latest close lies strictly above the window's mean, and no opinion
/// otherwise. The rule never favours short.
#[derive(Debug)]
pub struct SimpleAverage {
    prices: VecDeque<KlineEvent>,
    capacity: usize,
}

impl SimpleAverage {
    /// The window size of `SimpleAverage::default()`.
    pub const DEFAULT_CAPACITY: usize = 30;

    #[verifier::type_invariant]
    spec fn well_formed(&self) -> bool {
        1 <= self.capacity && self.prices@.len() <= self.capacity
    }

    /// The bars held, oldest first.
    pub closed spec fn window(&self) -> Seq<KlineEvent> {
        self.prices@
    }

    /// The largest number of bars that the window holds.
    pub closed spec fn capacity_spec(&self) -> nat {
        self.capacity as nat
    }

    /// An empty window for `capacity` bars, or `None` for a window of no bars.
    pub fn with_capacity(capacity: usize) -> (strategy: Option<Self>)
        ensures
            strategy is Some <==> capacity >= 1,
            strategy matches Some(made) ==> made.capacity_spec() == capacity && made.window()
                == Seq::<KlineEvent>::empty(),
    {
        if capacity == 0 {
            None
        } else {
            Some(SimpleAverage { prices: VecDeque::new(), capacity })
        }
    }

    /// The largest number of bars that the window holds; at least one.
    pub fn capacity(&self) -> (capacity: usize)
        ensures
            capacity == self.capacity_spec(),
            capacity >= 1,
    {
        proof {
            use_type_invariant(self);
        }
        self.capacity
    }

    /// The number of bars held; never more than the capacity.
    pub fn len(&self) -> (len: usize)
        ensures
            len == self.window().len(),
            len <= self.capacity_spec(),
    {
        proof {
            use_type_invariant(self);
        }
        self.prices.len()
    }
}

impl Clone for SimpleAverage {
    fn clone(&self) -> (copy: Self)
        ensures
            copy.window() == self.window(),
            copy.capacity_spec() == self.capacity_spec(),
    {
        proof {
            use_type_invariant(self);
        }
        SimpleAverage { prices: self.prices.clone(), capacity: self.capacity }
    }
}

impl Default for SimpleAverage {
    fn default() -> (strategy: Self)
        ensures
            strategy.capacity_spec() == SimpleAverage::DEFAULT_CAPACITY,
            strategy.window() == Seq::<KlineEvent>::empty(),
    {
        SimpleAverage { prices: VecDeque::new(), capacity: SimpleAverage::DEFAULT_CAPACITY }
    }
}

impl TradingStrategy for SimpleAverage {
    /// Long where the latest close lies strictly above the mean of the window,
    /// `None` otherwise, also on an empty window.
    open spec fn signal_spec(&self) -> Option<PositionDirection> {
        if closes_above_mean(self.window()) {
            Some(PositionDirection::Long)
        } else {
            None
        }
    }

    fn signal(&self) -> (signal: Option<PositionDirection>) {
        let n = self.prices.len();
        if n == 0 {
            return None;
        }
        let mut sum: i128 = 0;
        let mut i: usize = 0;
        while i < n
            invariant
                i <= n,
                n == self.prices@.len(),
                sum == close_sum(self.prices@.take(i as int)),
            decreases n - i,
        {
            proof {
                let next = self.prices@.take(i + 1);
                assert(next.drop_last() == self.prices@.take(i as int));
                lemma_close_sum_bounds(self.prices@.take(i as int));
                lemma_close_sum_bounds(next);
            }
            sum = sum + self.prices[i].k.c as i128;
            i = i + 1;
        }
        assert(self.prices@.take(n as int) == self.prices@);
        let latest = self.prices[n - 1].k.c as i128;
        let count = n as i128;
        assert(-0x8000_0000_0000_0000 * 0xffff_ffff_ffff_ffff <= latest * count
            <= 0x7fff_ffff_ffff_ffff * 0xffff_ffff_ffff_ffff) by (nonlinear_arith)
            requires
                -0x8000_0000_0000_0000 <= latest <= 0x7fff_ffff_ffff_ffff,
                0 <= count <= 0xffff_ffff_ffff_ffff,
        ;
        if latest * count > sum {
            Some(PositionDirection::Long)
        } else {
            None
        }
    }
}

impl<'a> HandleStreamEvent<&'a KlineEvent> for SimpleAverage {
    /// Every bar is taken in.
    open spec fn accepts(&self, event: &'a KlineEvent) -> bool {
        true
    }

    /// The window slides by one bar and the capacity stays.
    open spec fn ingests(&self, event: &'a KlineEvent, next: &Self) -> bool {
        &&& next.capacity_spec() == self.capacity_spec()
        &&& next.window() == slide(self.window(), self.capacity_spec(), *event)
        &&& next.window().len() <= next.capacity_spec()
    }

    fn handle_stream_event(&mut self, event: &'a KlineEvent) -> (outcome: Result<(), Error>) {
        proof {
            use_type_invariant(&*self);
        }
        let mut window: VecDeque<KlineEvent> = VecDeque::new();
        core::mem::swap(&mut self.prices, &mut window);
        if window.len() >= self.capacity {
            window.pop_front();
        }
        window.push_back(event.clone());
        core::mem::swap(&mut self.prices, &mut window);
        Ok(())
    }
}

} // verus!
