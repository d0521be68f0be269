use kline_trader::driver::{into_replay_order, replay, Decision};
use kline_trader::models::{FromDelimitedString, HistoricalKlineEvent, KlineEvent};
use kline_trader::strategy::decision::{PositionAction, PositionDirection, PositionParameters};
use kline_trader::strategy::simple::{SimpleAverage, SimpleStrategy};

fn archived(start: i64, close: &str, note: &str) -> HistoricalKlineEvent {
    let line = format!("{start},1,1,1,{close},1,{},1,1,1,1,{note}", start + 1);
    HistoricalKlineEvent::from_delimited_string(&line, ',').unwrap()
}

fn notes(events: &[KlineEvent]) -> Vec<String> {
    events.iter().map(|event| event.k.B.clone()).collect()
}

#[test]
fn replay_order_sorts_by_start_time() {
    let bars = vec![archived(30, "3", "c"), archived(10, "1", "a"), archived(20, "2", "b")];
    let events = into_replay_order(bars);
    assert_eq!(notes(&events), vec!["a", "b", "c"]);
    let starts: Vec<i64> = events.iter().map(|event| event.k.t).collect();
    assert_eq!(starts, vec![10, 20, 30]);
    let closes: Vec<i64> = events.iter().map(|event| event.k.c).collect();
    assert_eq!(closes, vec![100_000_000, 200_000_000, 300_000_000]);
    assert!(events.iter().all(|event| event.k.x));
}

#[test]
fn replay_order_keeps_bars_of_one_start_time_in_their_order() {
    let bars = vec![
        archived(20, "1", "first of 20"),
        archived(10, "1", "first of 10"),
        archived(20, "2", "second of 20"),
        archived(10, "2", "second of 10"),
        archived(20, "3", "third of 20"),
    ];
    let events = into_replay_order(bars);
    assert_eq!(
        notes(&events),
        vec!["first of 10", "second of 10", "first of 20", "second of 20", "third of 20"]
    );
}

#[test]
fn replay_order_of_nothing_is_nothing() {
    assert!(into_replay_order(Vec::new()).is_empty());
}

#[test]
fn replay_gives_one_decision_for_each_bar() {
    let closes = ["10", "10", "13", "9", "9", "12"];
    let bars: Vec<HistoricalKlineEvent> = closes
        .iter()
        .enumerate()
        .map(|(i, close)| archived(i as i64, close, ""))
        .collect();
    let events = into_replay_order(bars);
    let mut strategy = SimpleAverage::with_capacity(3).unwrap();
    let mut book = PositionParameters::default();
    let decisions = replay(&mut strategy, &mut book, &events).unwrap();
    let long = Some(PositionDirection::Long);
    let buy = Some(PositionAction::Buy(PositionDirection::Long));
    let sell = Some(PositionAction::Sell);
    assert_eq!(
        decisions,
        vec![
            Decision { action: None, direction: None, price: 1_000_000_000 },
            Decision { action: None, direction: None, price: 1_000_000_000 },
            Decision { action: buy, direction: long, price: 1_300_000_000 },
            Decision { action: sell, direction: None, price: 900_000_000 },
            Decision { action: None, direction: None, price: 900_000_000 },
            Decision { action: buy, direction: long, price: 1_200_000_000 },
        ]
    );
    assert_eq!(book.direction(), long);
    assert_eq!(book.action(), buy);
    assert_eq!(strategy.len(), 3);
}

#[test]
fn replay_of_nothing_leaves_the_book_alone() {
    let mut strategy = SimpleStrategy::new();
    let mut book = PositionParameters::new();
    book.set_action(Some(PositionAction::Sell));
    let decisions = replay(&mut strategy, &mut book, &[]).unwrap();
    assert!(decisions.is_empty());
    assert_eq!(book.action(), Some(PositionAction::Sell));
    assert_eq!(book.direction(), None);
}

#[test]
fn replay_never_buys_into_a_position_nor_sells_from_flat() {
    let closes: Vec<i64> = (0..200).map(|i| (i * 7919 % 101) - 50).collect();
    let bars: Vec<HistoricalKlineEvent> = closes
        .iter()
        .enumerate()
        .map(|(i, close)| archived(i as i64, &close.to_string(), ""))
        .collect();
    let events = into_replay_order(bars);
    let mut momentum = SimpleStrategy::new();
    let mut book = PositionParameters::new();
    let mut held = None;
    for decision in replay(&mut momentum, &mut book, &events).unwrap() {
        match decision.action {
            None => assert_eq!(decision.direction, held),
            Some(PositionAction::Buy(direction)) => {
                assert_eq!(held, None);
                assert_eq!(decision.direction, Some(direction));
            }
            Some(PositionAction::Sell) => {
                assert!(held.is_some());
                assert_eq!(decision.direction, None);
            }
        }
        held = decision.direction;
    }
    assert_eq!(book.direction(), held);
}

#[test]
fn replay_continues_from_the_book_it_is_given() {
    let events = into_replay_order(vec![archived(1, "5", ""), archived(2, "6", "")]);
    let mut strategy = SimpleStrategy::new();
    let mut book = PositionParameters::new();
    book.set_direction(Some(PositionDirection::Long));
    let decisions = replay(&mut strategy, &mut book, &events).unwrap();
    // one bar: momentum favours short against the long held, so it closes;
    // two bars rising: it favours long and opens from flat
    assert_eq!(decisions[0].action, Some(PositionAction::Sell));
    assert_eq!(decisions[0].direction, None);
    assert_eq!(decisions[1].action, Some(PositionAction::Buy(PositionDirection::Long)));
    assert_eq!(book.direction(), Some(PositionDirection::Long));
}
