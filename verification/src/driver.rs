use crate::errors::Error;
use crate::models::{is_streaming_form, HistoricalKlineEvent, KlineEvent};
use crate::strategy::decision::{
    apply_action_spec, decide_action_spec, lemma_decided_action_is_allowed, transition_allowed,
    HandleStreamEvent, PositionAction, PositionDirection, PositionParameters, TradingStrategy,
};
use vstd::prelude::*;

verus! {

/// What one observation led to: the action taken, the direction held after
/// it, and the closing price it was taken at.
#[derive(Debug, Clone, Copy, PartialEq, Eq, Structural)]
pub struct Decision {
    pub action: Option<PositionAction>,
    pub direction: Option<PositionDirection>,
    pub price: i64,
}

/// The decision that a signal leads to from the direction held, at a price.
pub open spec fn decision_spec(
    held: Option<PositionDirection>,
    signal: Option<PositionDirection>,
    price: i64,
) -> Decision {
    let action = decide_action_spec(held, signal);
    Decision { action, direction: apply_action_spec(held, action), price }
}

/// One turn of the consumption loop: the strategy takes the bar in, its signal
/// is turned into an action, the action moves the book, and both are stored.
///
/// The turn fails only where the strategy refuses the bar, and then leaves the
/// book as it was.
pub fn on_event<'a, S>(
    strategy: &mut S,
    position: &mut PositionParameters,
    event: &'a KlineEvent,
) -> (outcome: Result<Decision, Error>) where
    S: TradingStrategy + HandleStreamEvent<&'a KlineEvent>,

    ensures
        outcome is Ok <==> old(strategy).accepts(event),
        outcome matches Ok(decision) ==> {
            &&& old(strategy).ingests(event, final(strategy))
            &&& decision == decision_spec(
                old(position).direction_spec(),
                final(strategy).signal_spec(),
                event.k.c,
            )
            &&& final(position).action_spec() == decision.action
            &&& final(position).direction_spec() == decision.direction
        },
        outcome is Err ==> {
            &&& final(position).action_spec() == old(position).action_spec()
            &&& final(position).direction_spec() == old(position).direction_spec()
        },
{
    match strategy.handle_stream_event(event) {
        Err(error) => Err(error),
        Ok(()) => {
            let held = position.direction();
            let action = strategy.determine_action(held);
            proof {
                lemma_decided_action_is_allowed(held, strategy.signal_spec());
            }
            let direction = strategy.determine_direction(held, action);
            position.set_action(action);
            position.set_direction(direction);
            Ok(Decision { action, direction, price: event.k.c })
        },
    }
}

/// Whether `states` are the states that a strategy goes through while it takes
/// in `events` one by one: one state before each event and one after the last.
pub open spec fn is_run_over<'a, S: HandleStreamEvent<&'a KlineEvent>>(
    states: Seq<S>,
    events: Seq<KlineEvent>,
) -> bool {
    &&& states.len() == events.len() + 1
    &&& forall|i: int|
        #![trigger events[i]]
        0 <= i < events.len() ==> states[i].accepts(&events[i]) && states[i].ingests(
            &events[i],
            &states[i + 1],
        )
}

/// The direction held after the first `count` events of a run that started
/// from the direction `start`.
pub open spec fn held_after<S: TradingStrategy>(
    start: Option<PositionDirection>,
    states: Seq<S>,
    count: int,
) -> Option<PositionDirection>
    decreases count,
{
    if count <= 0 {
        start
    } else {
        let before = held_after(start, states, count - 1);
        apply_action_spec(before, decide_action_spec(before, states[count].signal_spec()))
    }
}

/// Whether `decisions` are what a run leads to, event by event.
pub open spec fn are_decisions_of<S: TradingStrategy>(
    decisions: Seq<Decision>,
    start: Option<PositionDirection>,
    states: Seq<S>,
    events: Seq<KlineEvent>,
) -> bool {
    &&& decisions.len() == events.len()
    &&& forall|i: int|
        0 <= i < decisions.len() ==> #[trigger] decisions[i] == decision_spec(
            held_after(start, states, i),
            states[i + 1].signal_spec(),
            events[i].k.c,
        )
}

/// Whether a run from `first` to `last` over all of `events` explains
/// `decisions`.
pub open spec fn is_replay_of<'a, S: TradingStrategy + HandleStreamEvent<&'a KlineEvent>>(
    states: Seq<S>,
    first: S,
    last: S,
    events: Seq<KlineEvent>,
    start: Option<PositionDirection>,
    decisions: Seq<Decision>,
) -> bool {
    &&& is_run_over(states, events)
    &&& states[0] == first
    &&& states[events.len() as int] == last
    &&& are_decisions_of(decisions, start, states, events)
}

/// Whether a run from `first` stops at an event that the strategy refuses:
/// `states` are those up to that event, which is the first one refused.
pub open spec fn is_refused_run<'a, S: TradingStrategy + HandleStreamEvent<&'a KlineEvent>>(
    states: Seq<S>,
    first: S,
    events: Seq<KlineEvent>,
) -> bool {
    &&& 1 <= states.len() <= events.len()
    &&& is_run_over(states, events.take(states.len() - 1))
    &&& states[0] == first
    &&& !states[states.len() - 1].accepts(&events[states.len() - 1])
}

/// Over any run that is driven by `decide_action`, every action is legal for
/// the direction held when it is taken: no sequence of observations leads to
/// a sell from a flat book or to a buy on top of a position.
pub proof fn lemma_driven_actions_are_allowed<S: TradingStrategy>(
    start: Option<PositionDirection>,
    states: Seq<S>,
    turn: int,
)
    ensures
        transition_allowed(
            held_after(start, states, turn),
            decide_action_spec(held_after(start, states, turn), states[turn + 1].signal_spec()),
        ),
{
    lemma_decided_action_is_allowed(
        held_after(start, states, turn),
        states[turn + 1].signal_spec(),
    );
}

proof fn lemma_held_after_push<S: TradingStrategy>(
    start: Option<PositionDirection>,
    states: Seq<S>,
    state: S,
    count: int,
)
    requires
        count < states.len(),
    ensures
        held_after(start, states.push(state), count) == held_after(start, states, count),
    decreases count,
{
    if count > 0 {
        lemma_held_after_push(start, states, state, count - 1);
    }
}

/// Replays a run of bars through a strategy and a book, one turn of the
/// consumption loop for each, and gives the decisions in order.
///
/// The replay stops at the first bar that the strategy refuses and gives the
/// strategy's error; the book then stands where the bars before it left it.
/// Bars are taken in the order given; two bars of one start time are two
/// turns.
pub fn replay<'a, S>(
    strategy: &mut S,
    position: &mut PositionParameters,
    events: &'a [KlineEvent],
) -> (outcome: Result<Vec<Decision>, Error>) where
    S: TradingStrategy + HandleStreamEvent<&'a KlineEvent>,

    ensures
        outcome matches Ok(decisions) ==> exists|states: Seq<S>|
            {
                &&& #[trigger] is_replay_of(
                    states,
                    *old(strategy),
                    *final(strategy),
                    events@,
                    old(position).direction_spec(),
                    decisions@,
                )
                &&& final(position).direction_spec() == held_after(
                    old(position).direction_spec(),
                    states,
                    events@.len() as int,
                )
            },
        outcome matches Ok(decisions) ==> final(position).action_spec() == if decisions@.len()
            == 0 {
            old(position).action_spec()
        } else {
            decisions@.last().action
        },
        outcome is Err ==> exists|states: Seq<S>|
            {
                &&& #[trigger] is_refused_run(states, *old(strategy), events@)
                &&& final(position).direction_spec() == held_after(
                    old(position).direction_spec(),
                    states,
                    states.len() - 1,
                )
            },
{
    let mut decisions: Vec<Decision> = Vec::new();
    let ghost start = position.direction_spec();
    let ghost mut states: Seq<S> = seq![*strategy];
    let mut i: usize = 0;
    while i < events.len()
        invariant
            i <= events@.len(),
            states.len() == i + 1,
            states[0] == *old(strategy),
            states[i as int] == *strategy,
            is_run_over(states, events@.take(i as int)),
            are_decisions_of(decisions@, start, states, events@.take(i as int)),
            start == old(position).direction_spec(),
            position.direction_spec() == held_after(start, states, i as int),
            position.action_spec() == if i == 0 {
                old(position).action_spec()
            } else {
                decisions@.last().action
            },
        decreases events@.len() - i,
    {
        match on_event(strategy, position, &events[i]) {
            Err(error) => {
                proof {
                    assert(is_refused_run(states, *old(strategy), events@));
                }
                return Err(error);
            },
            Ok(decision) => {
                proof {
                    let grown = states.push(*strategy);
                    let next = events@.take(i + 1);
                    assert(forall|j: int|
                        0 <= j < next.len() ==> grown[j].accepts(&next[j]) && grown[j].ingests(
                            &next[j],
                            &grown[j + 1],
                        ));
                    assert forall|j: int| 0 <= j <= i implies held_after(start, grown, j)
                        == held_after(start, states, j) by {
                        lemma_held_after_push(start, states, *strategy, j);
                    }
                    let after = decisions@.push(decision);
                    assert forall|j: int| 0 <= j < after.len() implies #[trigger] after[j]
                        == decision_spec(
                        held_after(start, grown, j),
                        grown[j + 1].signal_spec(),
                        next[j].k.c,
                    ) by {}
                    states = grown;
                }
                decisions.push(decision);
            },
        }
        i = i + 1;
    }
    proof {
        assert(events@.take(events@.len() as int) == events@);
        assert(is_replay_of(states, *old(strategy), *strategy, events@, start, decisions@));
    }
    Ok(decisions)
}

/// The bars of a run that start at `time`, in the run's order.
pub open spec fn bars_starting_at(bars: Seq<HistoricalKlineEvent>, time: i64) -> Seq<
    HistoricalKlineEvent,
> {
    bars.filter(|bar: HistoricalKlineEvent| bar.t == time)
}

/// Whether no bar of a run starts before the bar in front of it.
pub open spec fn is_ordered_by_start(bars: Seq<HistoricalKlineEvent>) -> bool {
    forall|i: int, j: int| 0 <= i <= j < bars.len() ==> bars[i].t <= bars[j].t
}

/// Whether `after` holds the bars of `before` ordered by start time, with
/// the bars of one start time in the order that they had.
pub open spec fn is_replay_order(
    after: Seq<HistoricalKlineEvent>,
    before: Seq<HistoricalKlineEvent>,
) -> bool {
    &&& is_ordered_by_start(after)
    &&& after.to_multiset() == before.to_multiset()
    &&& forall|time: i64| #[trigger]
        bars_starting_at(after, time) == bars_starting_at(before, time)
}

/// `sort_by_key` of std's slices, with the start time as the key. std
/// documents it as a stable sort in ascending order: afterwards the slice
/// holds the same items, no key stands before a smaller one, and items of one
/// key keep their order.
#[verifier::external_body]
fn sort_by_start_time(bars: &mut Vec<HistoricalKlineEvent>)
    ensures
        is_replay_order(final(bars)@, old(bars)@),
{
    bars.sort_by_key(|bar| bar.t);
}

/// Whether `events` are the streaming forms of `ordered`, bar by bar, and
/// `ordered` is the replay order of `bars`.
pub open spec fn is_replay_input(
    ordered: Seq<HistoricalKlineEvent>,
    bars: Seq<HistoricalKlineEvent>,
    events: Seq<KlineEvent>,
) -> bool {
    &&& is_replay_order(ordered, bars)
    &&& events.len() == ordered.len()
    &&& forall|i: int| 0 <= i < events.len() ==> is_streaming_form(ordered[i], #[trigger] events[i])
}

/// Makes the bars of downloaded archives ready for a replay: ordered by
/// start time and in their streaming form.
///
/// Archives may overlap. Bars of one start time are all kept, in the order in
/// which they were given, and a replay takes each as a turn of its own.
pub fn into_replay_order(bars: Vec<HistoricalKlineEvent>) -> (events: Vec<KlineEvent>)
    ensures
        exists|ordered: Seq<HistoricalKlineEvent>| #[trigger]
            is_replay_input(ordered, bars@, events@),
        forall|i: int, j: int| 0 <= i <= j < events@.len() ==> events@[i].k.t <= events@[j].k.t,
{
    let mut ordered = bars;
    sort_by_start_time(&mut ordered);
    let mut events: Vec<KlineEvent> = Vec::new();
    let mut i: usize = 0;
    while i < ordered.len()
        invariant
            i <= ordered@.len(),
            events@.len() == i,
            forall|k: int|
                0 <= k < i ==> is_streaming_form(ordered@[k], #[trigger] events@[k]),
        decreases ordered@.len() - i,
    {
        events.push(KlineEvent::from(ordered[i].clone()));
        i = i + 1;
    }
    assert(is_replay_input(ordered@, bars@, events@));
    events
}

} // verus!
