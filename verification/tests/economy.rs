//! The upgrade catalog, the cost curves, and the purchase protocol.

use pasta_cranker::audio_events::{AudioEvent, AudioEventChannel};
use pasta_cranker::core_elements::{ButtonEvents, CoreParameters, CoreState, VisibilityState};
use pasta_cranker::game_value::GameUInt;
use pasta_cranker::menu::{
    all, auto_cranker, dough_tick, kneading_grannies, pasta_cost, pasta_sell_price, Menu,
};

fn press_a() -> ButtonEvents {
    let mut b = ButtonEvents::none();
    b.a_pressed = true;
    b
}

#[test]
fn catalog_has_four_upgrades() {
    let items = all();
    assert_eq!(items.len(), 4);
    assert_eq!(items[0].name, "Pasta Sell Price");
    assert_eq!(items[1].name, "Knead for Speed");
    assert_eq!(items[2].name, "Auto-cranker");
    assert_eq!(items[3].name, "Kneading Grans");
    for item in &items {
        assert_eq!(item.count, 0);
    }
}

#[test]
fn cost_curves() {
    // Sell price: (20 + 20^count) * 6.
    assert_eq!(pasta_sell_price().cost().unwrap(), GameUInt::from_u64(126));
    assert_eq!(pasta_cost(2), GameUInt::from_u64(420));
    // The others: 10^count.
    assert_eq!(dough_tick().cost().unwrap(), GameUInt::from_u64(1));
    let mut cranker = auto_cranker();
    cranker.count = 3;
    assert_eq!(cranker.cost().unwrap(), GameUInt::from_u64(1000));
    let mut grans = kneading_grannies();
    grans.count = 10;
    assert_eq!(grans.cost().unwrap(), GameUInt::from_u64(10_000_000_000));
}

#[test]
fn cost_is_none_past_the_cap() {
    let mut item = dough_tick();
    item.count = 11;
    assert!(item.cost().is_none());
    assert_eq!(item.cost_str(), "Complete");
}

#[test]
fn cost_str_is_humanized() {
    let mut item = kneading_grannies();
    item.count = 4;
    assert_eq!(item.cost_str(), "10k");
    assert_eq!(pasta_sell_price().cost_str(), "126");
}

#[test]
fn purchase_happy_path() {
    let mut menu = Menu::new();
    let mut params = CoreParameters::default();
    let mut state = CoreState::new();
    let mut events = AudioEventChannel::new();
    state.money = GameUInt::from_u64(1000);
    menu.set_state(VisibilityState::Visible);
    menu.update(&mut params, &mut state, &mut events, press_a());
    // First upgrade costs 126 < 1000: bought; post-increment effect sets
    // pasta_price to 20 + 20^1 = 40.
    assert_eq!(state.money, GameUInt::from_u64(874));
    assert_eq!(menu.to_counts(), vec![1, 0, 0, 0]);
    assert_eq!(params.pasta_price, GameUInt::from_u64(40));
    assert_eq!(events.take_events(), vec![AudioEvent::UpgradeBought]);
}

#[test]
fn purchase_denied_when_poor() {
    let mut menu = Menu::new();
    let mut params = CoreParameters::default();
    let mut state = CoreState::new();
    let mut events = AudioEventChannel::new();
    state.money = GameUInt::from_u64(5);
    menu.set_state(VisibilityState::Visible);
    menu.update(&mut params, &mut state, &mut events, press_a());
    assert_eq!(state.money, GameUInt::from_u64(5));
    assert_eq!(menu.to_counts(), vec![0, 0, 0, 0]);
    assert_eq!(params.pasta_price, GameUInt::from_u64(20));
    assert_eq!(events.take_events(), vec![AudioEvent::UpgradeDenied]);
}

#[test]
fn purchase_denied_at_exact_cost() {
    // The boundary is strict: money equal to the cost is rejected.
    let mut menu = Menu::new();
    let mut params = CoreParameters::default();
    let mut state = CoreState::new();
    let mut events = AudioEventChannel::new();
    state.money = GameUInt::from_u64(126);
    menu.set_state(VisibilityState::Visible);
    menu.update(&mut params, &mut state, &mut events, press_a());
    assert_eq!(state.money, GameUInt::from_u64(126));
    assert_eq!(menu.to_counts(), vec![0, 0, 0, 0]);
    assert_eq!(events.take_events(), vec![AudioEvent::UpgradeDenied]);
}

#[test]
fn purchase_denied_when_maxed() {
    let mut menu = Menu::new();
    let mut params = CoreParameters::default();
    let mut state = CoreState::new();
    let mut events = AudioEventChannel::new();
    state.money = GameUInt::from_u64(10).pow(30);
    let counts = vec![11, 0, 0, 0];
    assert!(menu.init_counts(&counts));
    menu.set_state(VisibilityState::Visible);
    menu.update(&mut params, &mut state, &mut events, press_a());
    // The maxed upgrade takes no money and stays at its count.
    assert_eq!(state.money, GameUInt::from_u64(10).pow(30));
    assert_eq!(menu.to_counts(), vec![11, 0, 0, 0]);
    assert_eq!(events.take_events(), vec![AudioEvent::UpgradeDenied]);
}

#[test]
fn effects_set_levels_with_post_increment_count() {
    let mut menu = Menu::new();
    let mut params = CoreParameters::default();
    let mut state = CoreState::new();
    let mut events = AudioEventChannel::new();
    state.money = GameUInt::from_u64(1_000_000);
    menu.set_state(VisibilityState::Visible);
    // Move down to the auto-cranker and buy it twice.
    let mut down = ButtonEvents::none();
    down.down_pressed = true;
    menu.update(&mut params, &mut state, &mut events, down);
    menu.update(&mut params, &mut state, &mut events, down);
    menu.update(&mut params, &mut state, &mut events, press_a());
    assert_eq!(params.auto_crank_level, 1);
    menu.update(&mut params, &mut state, &mut events, press_a());
    assert_eq!(params.auto_crank_level, 2);
    // Costs were 10^0 + 10^1 = 11.
    assert_eq!(state.money, GameUInt::from_u64(999_989));
    assert_eq!(menu.to_counts(), vec![0, 0, 2, 0]);
}

#[test]
fn knead_speed_effect_sets_tick_size() {
    let mut menu = Menu::new();
    let mut params = CoreParameters::default();
    let mut state = CoreState::new();
    let mut events = AudioEventChannel::new();
    state.money = GameUInt::from_u64(1000);
    menu.set_state(VisibilityState::Visible);
    let mut down = ButtonEvents::none();
    down.down_pressed = true;
    menu.update(&mut params, &mut state, &mut events, down);
    menu.update(&mut params, &mut state, &mut events, press_a());
    // Post-increment count 1: 10000 + 1 * 10000 parts per million.
    assert_eq!(params.knead_tick_size, 20_000);
    menu.update(&mut params, &mut state, &mut events, press_a());
    assert_eq!(params.knead_tick_size, 30_000);
}

#[test]
fn hidden_menu_ignores_input() {
    let mut menu = Menu::new();
    let mut params = CoreParameters::default();
    let mut state = CoreState::new();
    let mut events = AudioEventChannel::new();
    state.money = GameUInt::from_u64(1000);
    menu.update(&mut params, &mut state, &mut events, press_a());
    assert_eq!(state.money, GameUInt::from_u64(1000));
    assert_eq!(menu.to_counts(), vec![0, 0, 0, 0]);
    assert_eq!(events.len(), 0);
}

#[test]
fn selection_clamps_at_the_ends() {
    let mut menu = Menu::new();
    let mut params = CoreParameters::default();
    let mut state = CoreState::new();
    let mut events = AudioEventChannel::new();
    menu.set_state(VisibilityState::Visible);
    let mut up = ButtonEvents::none();
    up.up_pressed = true;
    menu.update(&mut params, &mut state, &mut events, up);
    assert_eq!(menu.selected_item_index, 0);
    let mut down = ButtonEvents::none();
    down.down_pressed = true;
    for _ in 0..10 {
        menu.update(&mut params, &mut state, &mut events, down);
    }
    assert_eq!(menu.selected_item_index, 3);
}

#[test]
fn init_counts_rejects_corrupt_saves() {
    let mut menu = Menu::new();
    // Wrong length.
    assert!(!menu.init_counts(&vec![1, 2, 3]));
    assert_eq!(menu.to_counts(), vec![0, 0, 0, 0]);
    // A count beyond the purchase cap.
    assert!(!menu.init_counts(&vec![1, 2, 3, 99]));
    assert_eq!(menu.to_counts(), vec![0, 0, 0, 0]);
    // A sound list is adopted.
    assert!(menu.init_counts(&vec![1, 2, 3, 4]));
    assert_eq!(menu.to_counts(), vec![1, 2, 3, 4]);
}

#[test]
fn exactly_the_selected_row_carries_the_mark() {
    let mut menu = Menu::new();
    let mut params = CoreParameters::default();
    let mut state = CoreState::new();
    let mut events = AudioEventChannel::new();
    assert!(menu.menu_items[0].selected);
    assert!(!menu.menu_items[1].selected);
    menu.set_state(VisibilityState::Visible);
    let mut down = ButtonEvents::none();
    down.down_pressed = true;
    menu.update(&mut params, &mut state, &mut events, down);
    assert!(!menu.menu_items[0].selected);
    assert!(menu.menu_items[1].selected);
    assert!(!menu.menu_items[2].selected);
    assert!(!menu.menu_items[3].selected);
}

#[test]
fn selection_snap_scrolls_one_step() {
    let mut menu = Menu::new();
    let mut params = CoreParameters::default();
    let mut state = CoreState::new();
    let mut events = AudioEventChannel::new();
    menu.set_state(VisibilityState::Visible);
    // Rows start at y = 35, 107, 179, 251.
    assert_eq!(menu.menu_items[0].y_offset.get(), 35);
    assert_eq!(menu.menu_items[2].y_offset.get(), 179);
    let mut down = ButtonEvents::none();
    down.down_pressed = true;
    // Selecting row 1 (y 107, on screen) scrolls nothing.
    menu.update(&mut params, &mut state, &mut events, down);
    assert_eq!(menu.menu_items[0].y_offset.get(), 35);
    // Selecting row 2 (y 179 > 170) scrolls every row up one step of 72.
    menu.update(&mut params, &mut state, &mut events, down);
    assert_eq!(menu.menu_items[0].y_offset.get(), 35 - 72);
    assert_eq!(menu.menu_items[2].y_offset.get(), 179 - 72);
    // Moving back up to row 1 (now at 35, visible) scrolls nothing...
    let mut up = ButtonEvents::none();
    up.up_pressed = true;
    menu.update(&mut params, &mut state, &mut events, up);
    assert_eq!(menu.menu_items[1].y_offset.get(), 107 - 72);
    // ...and once row 0 sits above the top, selecting it scrolls back down.
    menu.update(&mut params, &mut state, &mut events, down);
    menu.update(&mut params, &mut state, &mut events, down);
    menu.update(&mut params, &mut state, &mut events, up);
    menu.update(&mut params, &mut state, &mut events, up);
    menu.update(&mut params, &mut state, &mut events, up);
    assert_eq!(menu.menu_items[0].y_offset.get(), 35);
    assert!(menu.menu_items[0].selected);
}
