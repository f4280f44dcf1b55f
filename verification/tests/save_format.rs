//! The save-file codec: exact layout, round trips, and rejection of
//! anything that is not a save.

use pasta_cranker::core_elements::{CoreParameters, CoreState};
use pasta_cranker::game_value::GameUInt;
use pasta_cranker::save::{decode_save, encode_save, save_filename, SaveState, SAVE_BUFFER_SIZE};

fn sample_save() -> SaveState {
    let mut parameters = CoreParameters::default();
    parameters.pasta_price = GameUInt::from_u64(420);
    parameters.auto_crank_level = 2;
    parameters.auto_knead_level = 1;
    parameters.knead_tick_size = 30_000;
    let mut state = CoreState::new();
    state.money = GameUInt::from_u64(15_000_000);
    state.diamonds = GameUInt::from_u64(42);
    state.dough_balls = GameUInt::from_u64(5);
    SaveState { parameters, state, menu_counts: vec![2, 2, 2, 1] }
}

#[test]
fn encoding_is_compact_json() {
    let bytes = encode_save(&sample_save());
    let text = String::from_utf8(bytes).unwrap();
    assert_eq!(
        text,
        "{\"parameters\":{\"knead_tick_size\":30000,\"pasta_price\":\"420\",\
         \"auto_crank_level\":2,\"auto_knead_level\":1},\"state\":{\"money\":\"15000000\",\
         \"diamonds\":\"42\",\"dough_balls\":\"5\"},\"menu_counts\":[2,2,2,1]}"
    );
}

#[test]
fn round_trip_preserves_every_field() {
    let original = sample_save();
    let bytes = encode_save(&original);
    let loaded = decode_save(&bytes).unwrap();
    assert_eq!(loaded.parameters.knead_tick_size, original.parameters.knead_tick_size);
    assert_eq!(loaded.parameters.pasta_price, original.parameters.pasta_price);
    assert_eq!(loaded.parameters.auto_crank_level, original.parameters.auto_crank_level);
    assert_eq!(loaded.parameters.auto_knead_level, original.parameters.auto_knead_level);
    assert_eq!(loaded.state.money, original.state.money);
    assert_eq!(loaded.state.diamonds, original.state.diamonds);
    assert_eq!(loaded.state.dough_balls, original.state.dough_balls);
    assert_eq!(loaded.menu_counts, original.menu_counts);
}

#[test]
fn round_trip_of_a_fresh_game() {
    let fresh = SaveState {
        parameters: CoreParameters::default(),
        state: CoreState::new(),
        menu_counts: vec![0, 0, 0, 0],
    };
    let bytes = encode_save(&fresh);
    let loaded = decode_save(&bytes).unwrap();
    assert!(loaded.state.money.is_zero());
    assert_eq!(loaded.parameters.pasta_price, GameUInt::from_u64(20));
    assert_eq!(loaded.menu_counts, vec![0, 0, 0, 0]);
}

#[test]
fn round_trip_of_a_counter_beyond_u64() {
    let mut save = sample_save();
    save.state.money = GameUInt::from_u64(10).pow(30);
    let bytes = encode_save(&save);
    let loaded = decode_save(&bytes).unwrap();
    assert_eq!(loaded.state.money, GameUInt::from_u64(10).pow(30));
}

#[test]
fn encoding_fits_the_save_buffer() {
    let bytes = encode_save(&sample_save());
    assert!(bytes.len() <= SAVE_BUFFER_SIZE);
}

#[test]
fn garbage_is_rejected() {
    assert!(decode_save(&vec![]).is_none());
    assert!(decode_save(&b"not a save".to_vec()).is_none());
    assert!(decode_save(&b"{}".to_vec()).is_none());
}

#[test]
fn truncated_save_is_rejected() {
    let mut bytes = encode_save(&sample_save());
    bytes.pop();
    assert!(decode_save(&bytes).is_none());
}

#[test]
fn tampered_save_is_rejected() {
    let mut bytes = encode_save(&sample_save());
    // Append trailing bytes.
    let mut with_tail = bytes.clone();
    with_tail.push(b' ');
    assert!(decode_save(&with_tail).is_none());
    // Corrupt one framing byte.
    bytes[0] = b'[';
    assert!(decode_save(&bytes).is_none());
}

#[test]
fn non_canonical_number_is_rejected() {
    let bytes = encode_save(&sample_save());
    let text = String::from_utf8(bytes).unwrap();
    // A leading zero in a counter would make two spellings of one save.
    let padded = text.replace("\"42\"", "\"042\"");
    assert!(decode_save(&padded.into_bytes()).is_none());
}

#[test]
fn out_of_range_parameters_are_rejected() {
    let bytes = encode_save(&sample_save());
    let text = String::from_utf8(bytes).unwrap();
    let broken = text.replace("\"auto_crank_level\":2", "\"auto_crank_level\":99");
    assert!(decode_save(&broken.into_bytes()).is_none());
}

#[test]
fn save_filenames_are_per_slot() {
    assert_eq!(save_filename(0), "PastaCranker-savefile.0.json");
    assert_eq!(save_filename(2), "PastaCranker-savefile.2.json");
    assert_eq!(save_filename(12), "PastaCranker-savefile.12.json");
}
