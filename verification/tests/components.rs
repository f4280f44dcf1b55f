//! The smaller components: timers, counters, screens, and the running
//! game's frame loop.

use pasta_cranker::audio_events::{AudioEvent, AudioEventChannel};
use pasta_cranker::bottom_bar::BottomBar;
use pasta_cranker::core_elements::{
    ButtonEvents, CoreParameters, CoreState, CountStore, StageCounter, Timer, VisibilityState,
};
use pasta_cranker::game_value::GameUInt;
use pasta_cranker::helpers::{wrap, wrap_with_info, WrapResult};
use pasta_cranker::info_overlay::InfoOverlay;
use pasta_cranker::level_select::LevelSelect;
use pasta_cranker::save::{decode_save, encode_save};
use pasta_cranker::GameState;

#[test]
fn count_store_tracks_total_and_dirty() {
    let mut store = CountStore::new();
    store.add(3);
    store.add(4);
    assert_eq!(store.peek_count(), 7);
    assert_eq!(store.drain(), 7);
    assert_eq!(store.drain(), 0);
    store.add(2);
    assert_eq!(store.peek_count(), 9);
    assert_eq!(store.drain(), 2);
}

#[test]
fn visibility_toggles() {
    assert_eq!(VisibilityState::Hidden.not(), VisibilityState::Visible);
    assert_eq!(VisibilityState::Visible.not(), VisibilityState::Hidden);
}

#[test]
fn wrap_folds_one_overshoot() {
    assert_eq!(wrap(50, 0, 100), 50);
    assert_eq!(wrap(120, 0, 100), 20);
    assert_eq!(wrap(-30, 0, 100), 70);
    // A value further out than one range width stays out, as documented.
    assert_eq!(wrap(-200, 0, 100), -100);
}

#[test]
fn wrap_with_info_reports_the_side() {
    assert_eq!(wrap_with_info(50, 0, 100), (50, WrapResult::NoWrap));
    assert_eq!(wrap_with_info(120, 0, 100), (20, WrapResult::Overflow));
    assert_eq!(wrap_with_info(-30, 0, 100), (70, WrapResult::Underflow));
}

#[test]
fn timer_fires_once_after_its_duration() {
    let mut t = Timer::new(5_000, 0);
    t.update(4_000);
    assert!(!t.finished());
    t.update(5_000);
    assert!(!t.finished());
    t.update(5_001);
    assert!(t.finished());
    assert!(t.just_finished());
    t.update(6_000);
    assert!(t.finished());
    assert!(!t.just_finished());
    t.reset(6_000);
    assert!(!t.finished());
}

#[test]
fn stage_counter_advances_and_empties() {
    let mut c = StageCounter::new(4);
    assert_eq!(c.get_idx(), Some(0));
    c.incr(false);
    c.incr(false);
    c.incr(false);
    assert_eq!(c.get_idx(), Some(3));
    assert!(c.is_active());
    c.incr(false);
    assert_eq!(c.get_idx(), None);
    assert!(!c.is_active());
    c.incr(false);
    assert_eq!(c.get_idx(), None);
    c.reset();
    assert_eq!(c.get_idx(), Some(0));
}

#[test]
fn stage_counter_wraps_when_asked() {
    let mut c = StageCounter::new(3);
    c.incr(true);
    c.incr(true);
    assert_eq!(c.get_idx(), Some(2));
    c.incr(true);
    assert_eq!(c.get_idx(), Some(0));
}

#[test]
fn level_select_commits_on_release_only() {
    let mut screen = LevelSelect::new(vec![None, None, None]);
    let mut down = ButtonEvents::none();
    down.down_pressed = true;
    assert_eq!(screen.update(down), None);
    assert_eq!(screen.update(down), None);
    // Clamped at the last slot.
    assert_eq!(screen.update(down), None);
    let mut press = ButtonEvents::none();
    press.a_pressed = true;
    assert_eq!(screen.update(press), None);
    let mut release = ButtonEvents::none();
    release.a_released = true;
    assert_eq!(screen.update(release), Some(2));
}

#[test]
fn level_select_guards_against_moving_away_mid_press() {
    let mut screen = LevelSelect::new(vec![None, None, None]);
    let mut press = ButtonEvents::none();
    press.a_pressed = true;
    assert_eq!(screen.update(press), None);
    let mut up_and_release = ButtonEvents::none();
    up_and_release.down_pressed = true;
    up_and_release.a_released = true;
    // The selection moved off the pressed row before the release.
    assert_eq!(screen.update(up_and_release), None);
}

#[test]
fn bottom_bar_toggles_the_menu() {
    let mut bar = BottomBar::new();
    let mut menu = pasta_cranker::menu::Menu::new();
    let state = CoreState::new();
    let mut left = ButtonEvents::none();
    left.left_pressed = true;
    assert!(bar.update(&state, &mut menu, left));
    assert_eq!(menu.state, VisibilityState::Visible);
    // While open, only the right button closes it.
    assert!(!bar.update(&state, &mut menu, left));
    assert_eq!(menu.state, VisibilityState::Visible);
    let mut right = ButtonEvents::none();
    right.right_pressed = true;
    assert!(bar.update(&state, &mut menu, right));
    assert_eq!(menu.state, VisibilityState::Hidden);
}

#[test]
fn info_overlay_dismissed_by_any_input() {
    let mut overlay = InfoOverlay::new(true);
    overlay.update(false);
    overlay.show();
    overlay.update(true);
    let mut again = InfoOverlay::new(false);
    again.update(true);
}

#[test]
fn audio_channel_queues_in_order() {
    let mut channel = AudioEventChannel::new();
    channel.push(AudioEvent::MoneyGained);
    channel.push(AudioEvent::DoughCreated);
    assert_eq!(channel.len(), 2);
    assert_eq!(channel.take_events(), vec![AudioEvent::MoneyGained, AudioEvent::DoughCreated]);
    assert_eq!(channel.len(), 0);
}

#[test]
fn audio_events_name_their_samples() {
    assert_eq!(
        AudioEvent::MoneyGained.to_sound_file(),
        "res/audio/75235__creek23__cha-ching.wav"
    );
    assert_eq!(
        AudioEvent::UpgradeBought.to_sound_file(),
        "res/audio/611800__metalfortress__confirm.wav"
    );
    assert_eq!(
        AudioEvent::UpgradeDenied.to_sound_file(),
        "res/audio/220187__gameaudio__loosedeny-casual-1.wav"
    );
    assert_eq!(
        AudioEvent::DoughCreated.to_sound_file(),
        "res/audio/330997__rudmer_rotteveel__stick-hitting-a-dreadlock-small-thud.wav"
    );
}

#[test]
fn fresh_game_shows_the_overlay_and_starts_at_zero() {
    let game = GameState::new(0, None, 0, 0);
    assert!(game.state.money.is_zero());
    assert!(game.state.dough_balls.is_zero());
    assert_eq!(game.menu.to_counts(), vec![0, 0, 0, 0]);
    assert_eq!(game.save_index, 0);
}

#[test]
fn loaded_game_adopts_a_sound_snapshot() {
    let mut fresh = GameState::new(1, None, 0, 0);
    fresh.state.money = GameUInt::from_u64(1234);
    assert!(fresh.menu.init_counts(&vec![1, 0, 2, 0]));
    let snapshot = fresh.save_snapshot();
    let bytes = encode_save(&snapshot);
    let loaded_snapshot = decode_save(&bytes).unwrap();
    let game = GameState::new(1, Some(loaded_snapshot), 0, 0);
    assert_eq!(game.state.money, GameUInt::from_u64(1234));
    assert_eq!(game.menu.to_counts(), vec![1, 0, 2, 0]);
}

#[test]
fn corrupt_snapshot_falls_back_to_a_fresh_game() {
    let mut snapshot = GameState::new(0, None, 0, 0).save_snapshot();
    snapshot.menu_counts = vec![99, 0, 0, 0];
    snapshot.state.money = GameUInt::from_u64(777);
    let game = GameState::new(0, Some(snapshot), 0, 0);
    assert!(game.state.money.is_zero());
    assert_eq!(game.menu.to_counts(), vec![0, 0, 0, 0]);
}

#[test]
fn save_timer_asks_for_a_save_every_interval() {
    let mut game = GameState::new(0, None, 0, 0);
    assert!(!game.update(4_000, false));
    assert!(game.update(5_001, false));
    // The timer restarted: nothing until another interval passes.
    assert!(!game.update(9_000, false));
    assert!(game.update(10_002, false));
}

#[test]
fn default_parameters_match_a_fresh_game() {
    let params = CoreParameters::default();
    assert_eq!(params.knead_tick_size, 20_000);
    assert_eq!(params.pasta_price, GameUInt::from_u64(20));
    assert_eq!(params.auto_crank_level, 0);
    assert_eq!(params.auto_knead_level, 0);
    let cloned = params.clone();
    assert_eq!(cloned.pasta_price, params.pasta_price);
}
