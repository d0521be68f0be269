use kline_trader::strategy::decision::PositionDirection::{Long, Short};
use kline_trader::strategy::decision::{
    apply_action, decide_action, PositionAction, PositionDirection, PositionParameters,
};

const DIRECTIONS: [Option<PositionDirection>; 3] =
    [None, Some(PositionDirection::Long), Some(PositionDirection::Short)];

#[test]
fn decide_action_follows_the_table() {
    assert_eq!(decide_action(None, None), None);
    assert_eq!(decide_action(None, Some(Long)), Some(PositionAction::Buy(Long)));
    assert_eq!(decide_action(None, Some(Short)), Some(PositionAction::Buy(Short)));
    assert_eq!(decide_action(Some(Long), Some(Long)), None);
    assert_eq!(decide_action(Some(Short), Some(Short)), None);
    assert_eq!(decide_action(Some(Long), Some(Short)), Some(PositionAction::Sell));
    assert_eq!(decide_action(Some(Short), Some(Long)), Some(PositionAction::Sell));
    assert_eq!(decide_action(Some(Long), None), Some(PositionAction::Sell));
    assert_eq!(decide_action(Some(Short), None), Some(PositionAction::Sell));
}

#[test]
fn apply_action_follows_the_table() {
    assert_eq!(apply_action(None, None), None);
    assert_eq!(apply_action(None, Some(PositionAction::Buy(Long))), Some(Long));
    assert_eq!(apply_action(None, Some(PositionAction::Buy(Short))), Some(Short));
    assert_eq!(apply_action(Some(Long), None), Some(Long));
    assert_eq!(apply_action(Some(Short), None), Some(Short));
    assert_eq!(apply_action(Some(Long), Some(PositionAction::Sell)), None);
    assert_eq!(apply_action(Some(Short), Some(PositionAction::Sell)), None);
}

#[test]
fn decided_actions_are_always_legal() {
    for held in DIRECTIONS {
        for signal in DIRECTIONS {
            match decide_action(held, signal) {
                None => assert_eq!(held, signal),
                Some(PositionAction::Buy(direction)) => {
                    assert_eq!(held, None);
                    assert_eq!(signal, Some(direction));
                }
                Some(PositionAction::Sell) => assert!(held.is_some()),
            }
        }
    }
}

#[test]
fn a_steady_signal_is_reached_in_two_turns() {
    for start in DIRECTIONS {
        for signal in DIRECTIONS {
            let first = apply_action(start, decide_action(start, signal));
            let second = apply_action(first, decide_action(first, signal));
            assert_eq!(second, signal);
            assert_eq!(decide_action(second, signal), None);
        }
    }
}

#[test]
fn position_parameters_start_flat_and_store_what_is_set() {
    let mut book = PositionParameters::default();
    assert_eq!(book.direction(), None);
    assert_eq!(book.action(), None);
    book.set_action(Some(PositionAction::Buy(PositionDirection::Short)));
    assert_eq!(book.action(), Some(PositionAction::Buy(PositionDirection::Short)));
    assert_eq!(book.direction(), None);
    book.set_direction(Some(PositionDirection::Short));
    assert_eq!(book.direction(), Some(PositionDirection::Short));
    assert_eq!(book.action(), Some(PositionAction::Buy(PositionDirection::Short)));
    let fresh = PositionParameters::new();
    assert_eq!(fresh.direction(), None);
    assert_eq!(fresh.action(), None);
}
