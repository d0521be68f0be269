use crate::errors::Error;
use vstd::prelude::*;

verus! {

/// The side of an open position. A flat book is `None` of this type.
#[derive(Debug, Clone, Copy, PartialEq, Eq, Structural)]
pub enum PositionDirection {
    Long,
    Short,
}

/// What the book is asked to do on one observation.
#[derive(Debug, Clone, Copy, PartialEq, Eq, Structural)]
pub enum PositionAction {
    /// Open a position in the given direction.
    Buy(PositionDirection),
    /// Close the open position.
    Sell,
}

/// The action that a signal asks for, given the direction currently held.
///
/// Nothing is done while the signal agrees with the book. A flat book follows
/// a signal by opening in its direction. Every other disagreement closes.
pub open spec fn decide_action_spec(
    current: Option<PositionDirection>,
    signal: Option<PositionDirection>,
) -> Option<PositionAction> {
    if signal == current {
        None
    } else if current is None {
        Some(PositionAction::Buy(signal->0))
    } else {
        Some(PositionAction::Sell)
    }
}

/// An action is legal when it opens from flat, closes an open position, or
/// does nothing.
pub open spec fn transition_allowed(
    current: Option<PositionDirection>,
    action: Option<PositionAction>,
) -> bool {
    match action {
        None => true,
        Some(PositionAction::Buy(_)) => current is None,
        Some(PositionAction::Sell) => current is Some,
    }
}

/// The direction held after a legal action.
pub open spec fn apply_action_spec(
    current: Option<PositionDirection>,
    action: Option<PositionAction>,
) -> Option<PositionDirection> {
    match action {
        None => current,
        Some(PositionAction::Buy(direction)) => Some(direction),
        Some(PositionAction::Sell) => None,
    }
}

/// Chooses the action for one observation from the direction held and the
/// strategy's signal.
pub fn decide_action(
    current: Option<PositionDirection>,
    signal: Option<PositionDirection>,
) -> (action: Option<PositionAction>)
    ensures
        action == decide_action_spec(current, signal),
{
    match (current, signal) {
        (None, None) => None,
        (None, Some(direction)) => Some(PositionAction::Buy(direction)),
        (Some(PositionDirection::Long), Some(PositionDirection::Long)) => None,
        (Some(PositionDirection::Short), Some(PositionDirection::Short)) => None,
        (Some(_), _) => Some(PositionAction::Sell),
    }
}

/// Moves the book by one legal action.
///
/// Closing a flat book and opening on top of an open position are defects of
/// the caller, not data: they are excluded here and never absorbed.
pub fn apply_action(
    current: Option<PositionDirection>,
    action: Option<PositionAction>,
) -> (direction: Option<PositionDirection>)
    requires
        transition_allowed(current, action),
    ensures
        direction == apply_action_spec(current, action),
{
    match action {
        None => current,
        Some(PositionAction::Buy(direction)) => Some(direction),
        Some(PositionAction::Sell) => None,
    }
}

/// Every action that `decide_action` chooses is legal for the direction it was
/// chosen for: the two functions cannot fall out of step.
pub proof fn lemma_decided_action_is_allowed(
    current: Option<PositionDirection>,
    signal: Option<PositionDirection>,
)
    ensures
        transition_allowed(current, decide_action_spec(current, signal)),
{
}

/// A flat book is only ever reached by closing: where a legal action leaves
/// the book flat, either it was flat before or the action was a sell.
pub proof fn lemma_flat_only_by_selling(
    current: Option<PositionDirection>,
    action: Option<PositionAction>,
)
    requires
        transition_allowed(current, action),
        apply_action_spec(current, action) is None,
    ensures
        current is None || action == Some(PositionAction::Sell),
{
}

/// A signal that holds still is followed within two turns: from any book,
/// deciding and applying twice on one signal leaves the book in the signal's
/// direction, and a third turn does nothing.
pub proof fn lemma_steady_signal_is_followed(
    current: Option<PositionDirection>,
    signal: Option<PositionDirection>,
)
    ensures
        ({
            let first = apply_action_spec(current, decide_action_spec(current, signal));
            let second = apply_action_spec(first, decide_action_spec(first, signal));
            second == signal && decide_action_spec(second, signal) is None
        }),
{
}

/// The book of one trading session: the direction held and the action taken
/// on the latest observation.
#[derive(Debug)]
pub struct PositionParameters {
    position_direction: Option<PositionDirection>,
    position_action: Option<PositionAction>,
}

impl PositionParameters {
    /// The direction held, as the contracts speak of it.
    pub closed spec fn direction_spec(&self) -> Option<PositionDirection> {
        self.position_direction
    }

    /// The latest action, as the contracts speak of it.
    pub closed spec fn action_spec(&self) -> Option<PositionAction> {
        self.position_action
    }

    /// A fresh book: flat, with nothing done yet.
    pub fn new() -> (book: Self)
        ensures
            book.direction_spec() is None,
            book.action_spec() is None,
    {
        PositionParameters { position_direction: None, position_action: None }
    }

    pub fn direction(&self) -> (direction: Option<PositionDirection>)
        ensures
            direction == self.direction_spec(),
    {
        self.position_direction
    }

    pub fn action(&self) -> (action: Option<PositionAction>)
        ensures
            action == self.action_spec(),
    {
        self.position_action
    }

    pub fn set_direction(&mut self, direction: Option<PositionDirection>)
        ensures
            final(self).direction_spec() == direction,
            final(self).action_spec() == old(self).action_spec(),
    {
        self.position_direction = direction;
    }

    pub fn set_action(&mut self, action: Option<PositionAction>)
        ensures
            final(self).action_spec() == action,
            final(self).direction_spec() == old(self).direction_spec(),
    {
        self.position_action = action;
    }
}

impl Default for PositionParameters {
    fn default() -> (book: Self)
        ensures
            book.direction_spec() is None,
            book.action_spec() is None,
    {
        PositionParameters::new()
    }
}

/// How a strategy takes in one event of a stream. For most strategies this
/// means storing the event; the trading rule itself lives in `TradingStrategy`.
pub trait HandleStreamEvent<A> {
    /// The events that this strategy takes in without an error.
    spec fn accepts(&self, event: A) -> bool;

    /// Whether `next` is the state that taking in `event` leads to from `self`.
    spec fn ingests(&self, event: A, next: &Self) -> bool;

    fn handle_stream_event(&mut self, event: A) -> (outcome: Result<(), Error>)
        ensures
            outcome is Ok <==> old(self).accepts(event),
            outcome is Ok ==> old(self).ingests(event, final(self)),
    ;
}

/// A trading rule: a signal read off the strategy's state, and the two steps
/// that turn a signal into a position.
pub trait TradingStrategy {
    /// The direction that the strategy's state favours.
    spec fn signal_spec(&self) -> Option<PositionDirection>;

    /// The direction currently favoured, or `None` where the strategy sees no
    /// edge.
    fn signal(&self) -> (signal: Option<PositionDirection>)
        ensures
            signal == self.signal_spec(),
    ;

    /// The action to take on the current signal, given the direction held.
    fn determine_action(&self, position: Option<PositionDirection>) -> (action: Option<
        PositionAction,
    >)
        ensures
            action == decide_action_spec(position, self.signal_spec()),
    {
        decide_action(position, self.signal())
    }

    /// The direction held after a legal action.
    fn determine_direction(
        &self,
        position: Option<PositionDirection>,
        action: Option<PositionAction>,
    ) -> (direction: Option<PositionDirection>)
        requires
            transition_allowed(position, action),
        ensures
            direction == apply_action_spec(position, action),
    {
        apply_action(position, action)
    }
}

} // verus!
