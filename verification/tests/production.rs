//! The crank, the rollers, and the kneading pipeline.

use pasta_cranker::audio_events::{AudioEvent, AudioEventChannel};
use pasta_cranker::core_elements::{AutoTicker, ButtonEvents, CoreParameters, CoreState};
use pasta_cranker::flour_pile::FlourPile;
use pasta_cranker::game_value::GameUInt;
use pasta_cranker::machine::{CrankTracker, PastaMachineState};

const FULL_TURN: u64 = 360_000;

#[test]
fn crank_tracker_fires_on_a_full_turn() {
    // 360 degrees of accumulated positive delta fire exactly one tick,
    // in whatever pieces they arrive.
    let mut t = CrankTracker::new(FULL_TURN);
    assert!(!t.update(100_000));
    assert!(!t.update(100_000));
    assert!(t.update(160_000));
    // The turn was exact, so nothing is left over.
    assert!(!t.update(0));
}

#[test]
fn crank_tracker_single_delta() {
    let mut t = CrankTracker::new(FULL_TURN);
    assert!(t.update(360_000));
    assert!(!t.update(359_999));
    assert!(t.update(1));
}

#[test]
fn crank_tracker_ignores_reverse_cranking() {
    let mut t = CrankTracker::new(FULL_TURN);
    assert!(!t.update(-200_000));
    assert!(!t.update(200_000));
    assert!(!t.update(-200_000));
    // Still only 200 degrees of progress: the reverse deltas added nothing.
    assert!(!t.update(159_999));
    assert!(t.update(1));
}

#[test]
fn crank_tracker_keeps_leftover() {
    let mut t = CrankTracker::new(FULL_TURN);
    assert!(t.update(500_000));
    // 140 degrees left over; 220 more completes the second turn.
    assert!(!t.update(219_999));
    assert!(t.update(1));
}

fn quiet() -> ButtonEvents {
    ButtonEvents::none()
}

/// Turn the crank one full revolution via a changed angle reading.
fn one_turn(
    machine: &mut PastaMachineState,
    state: &mut CoreState,
    params: &CoreParameters,
    events: &mut AudioEventChannel,
    frame: u64,
) -> bool {
    // The angle alternates so the machine sees manual cranking.
    machine.update_crank(state, params, events, FULL_TURN as i64, (frame % 2) * 1000 + 1, frame)
}

#[test]
fn roller_completion_pays_pasta_price_once() {
    let params = CoreParameters::default();
    let mut state = CoreState::new();
    state.dough_balls = GameUInt::from_u64(2);
    let mut events = AudioEventChannel::new();
    let mut machine = PastaMachineState::new(0, 0);
    // Three turns: stages 1, 2, 3. No money yet.
    for frame in 1..4u64 {
        assert!(one_turn(&mut machine, &mut state, &params, &mut events, frame));
    }
    assert!(state.money.is_zero());
    assert_eq!(events.len(), 0);
    // The fourth turn completes the dough: exactly one pasta sold at
    // pasta_price, one money-gained cue, one dough ball consumed to refill.
    assert!(one_turn(&mut machine, &mut state, &params, &mut events, 4));
    assert_eq!(state.money, GameUInt::from_u64(20));
    assert_eq!(state.dough_balls, GameUInt::from_u64(1));
    assert_eq!(events.take_events(), vec![AudioEvent::MoneyGained]);
}

#[test]
fn roller_stays_empty_without_dough_balls() {
    let params = CoreParameters::default();
    let mut state = CoreState::new();
    let mut events = AudioEventChannel::new();
    let mut machine = PastaMachineState::new(0, 0);
    for frame in 1..5u64 {
        one_turn(&mut machine, &mut state, &params, &mut events, frame);
    }
    // Completion paid once, but with no reserve the rollers stay empty:
    // further turns produce nothing.
    assert_eq!(state.money, GameUInt::from_u64(20));
    assert!(state.dough_balls.is_zero());
    events.take_events();
    for frame in 5..9u64 {
        one_turn(&mut machine, &mut state, &params, &mut events, frame);
    }
    assert_eq!(state.money, GameUInt::from_u64(20));
    assert_eq!(events.len(), 0);
}

#[test]
fn auto_cranker_turns_the_machine_while_idle() {
    let mut params = CoreParameters::default();
    params.auto_crank_level = 1;
    let mut state = CoreState::new();
    let mut events = AudioEventChannel::new();
    let mut machine = PastaMachineState::new(0, 0);
    // Level 1 cranks 40 degrees per second: 9 seconds of idling is one turn.
    // The angle reading never changes, so only the auto-cranker moves it.
    let ticked = machine.update_crank(&mut state, &params, &mut events, 0, 0, 9_000);
    assert!(ticked);
    // And nothing more until another 9 seconds pass.
    assert!(!machine.update_crank(&mut state, &params, &mut events, 0, 0, 10_000));
}

#[test]
fn auto_ticker_rates() {
    let mut t = AutoTicker::new(40, 0);
    // Level zero produces nothing and keeps the reference time.
    assert_eq!(t.poll(0, 5_000), 0);
    // One level at 40 units per millisecond over the full five seconds.
    assert_eq!(t.poll(1, 5_000), 200_000);
    // Polling again at the same time yields nothing new.
    assert_eq!(t.poll(1, 5_000), 0);
    assert_eq!(t.poll(2, 6_000), 80_000);
}

#[test]
fn knead_fills_and_makes_one_dough_ball() {
    let params = CoreParameters::default();
    let mut state = CoreState::new();
    let mut events = AudioEventChannel::new();
    let mut pile = FlourPile::new((80, 80), 0);
    let mut press = ButtonEvents::none();
    press.a_pressed = true;
    // Default tick is 0.02 of the bar; the threshold is 0.99, so the
    // 50th tick (reaching 1.00) makes the first dough ball.
    for _ in 0..49 {
        pile.update(&mut state, &params, &mut events, press, 0);
    }
    assert!(state.dough_balls.is_zero());
    assert_eq!(pile.fill_ppm(), 980_000);
    pile.update(&mut state, &params, &mut events, press, 0);
    assert_eq!(state.dough_balls, GameUInt::from_u64(1));
    assert_eq!(pile.fill_ppm(), 0);
    assert_eq!(events.take_events(), vec![AudioEvent::DoughCreated]);
}

#[test]
fn fill_never_shows_past_a_full_bar() {
    let mut params = CoreParameters::default();
    params.knead_tick_size = 1_000_000;
    let mut state = CoreState::new();
    let mut events = AudioEventChannel::new();
    let mut pile = FlourPile::new((80, 80), 0);
    let mut press = ButtonEvents::none();
    press.a_pressed = true;
    pile.update(&mut state, &params, &mut events, press, 0);
    // One giant tick fills the bar, yields exactly one ball, resets to zero.
    assert_eq!(state.dough_balls, GameUInt::from_u64(1));
    assert_eq!(pile.fill_ppm(), 0);
    assert_eq!(events.take_events(), vec![AudioEvent::DoughCreated]);
}

#[test]
fn auto_kneader_fills_while_idle() {
    let mut params = CoreParameters::default();
    params.auto_knead_level = 2;
    let mut state = CoreState::new();
    let mut events = AudioEventChannel::new();
    let mut pile = FlourPile::new((80, 80), 0);
    // Two levels at 0.02 per second: 10 seconds of idling is 0.4 of the bar.
    pile.update(&mut state, &params, &mut events, quiet(), 10_000);
    assert_eq!(pile.fill_ppm(), 400_000);
    // 25 seconds in all reaches 1.0: one dough ball.
    pile.update(&mut state, &params, &mut events, quiet(), 25_000);
    assert_eq!(state.dough_balls, GameUInt::from_u64(1));
    assert_eq!(pile.fill_ppm(), 0);
}

#[test]
fn quarter_turns_accumulate_into_ticks() {
    let params = CoreParameters::default();
    let mut state = CoreState::new();
    let mut events = AudioEventChannel::new();
    let mut machine = PastaMachineState::new(0, 0);
    // Four quarter turns of manual cranking make one full revolution.
    assert!(!machine.update_crank(&mut state, &params, &mut events, 90_000, 1, 1));
    assert!(!machine.update_crank(&mut state, &params, &mut events, 90_000, 2, 2));
    assert!(!machine.update_crank(&mut state, &params, &mut events, 90_000, 3, 3));
    assert!(machine.update_crank(&mut state, &params, &mut events, 90_000, 4, 4));
}

#[test]
fn manual_and_auto_cranking_accumulate() {
    let mut params = CoreParameters::default();
    params.auto_crank_level = 1;
    let mut state = CoreState::new();
    let mut events = AudioEventChannel::new();
    let mut machine = PastaMachineState::new(0, 0);
    // 8.75 idle seconds at level 1 pend 350 degrees of auto progress; a
    // 10-degree manual crank on the same frame (the angle moved) sums
    // with it and completes the revolution: no idle income is lost.
    assert!(machine.update_crank(&mut state, &params, &mut events, 10_000, 7, 8_750));
}
