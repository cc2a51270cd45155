use dwmlock::capture::ScreenImage;
use dwmlock::game::MiniGameState;
use dwmlock::settings::Settings;
use dwmlock::state::{arm_warning, mark_warning, warning_active, AppState, WARNING_DURATION_MS};

fn locked_state(password: &str) -> AppState {
    let image = ScreenImage { width: 2, height: 2, pixels: vec![0u8; 16] };
    let settings = Settings { password: password.to_string(), ..Settings::default() };
    AppState::new(image, settings, 0)
}

#[test]
fn new_state_starts_clean() {
    let state = locked_state("hunter2");
    assert_eq!(state.input, "");
    assert_eq!(state.password, "hunter2");
    assert!(state.warning_since.is_none());
    assert!(!state.game.active);
    assert!(!warning_active(&state, 0));
}

#[test]
fn minigame_autostart_comes_from_settings() {
    let image = ScreenImage { width: 1, height: 1, pixels: vec![0u8; 4] };
    let settings = Settings { minigame_autostart: true, ..Settings::default() };
    let state = AppState::new(image, settings, 0);
    assert!(state.game.active);
}

#[test]
fn printable_ascii_is_appended() {
    let mut state = locked_state("pw");
    assert!(!state.handle_char('a', 10));
    assert!(!state.handle_char('B', 10));
    assert!(!state.handle_char('3', 10));
    assert_eq!(state.input, "aB3");
}

#[test]
fn control_and_non_ascii_are_dropped() {
    let mut state = locked_state("pw");
    state.handle_char('\t', 10);
    state.handle_char('\u{7F}', 10);
    state.handle_char('é', 10);
    assert_eq!(state.input, "");
}

#[test]
fn escape_is_ignored() {
    let mut state = locked_state("pw");
    state.handle_char('p', 10);
    assert!(!state.handle_char('\u{1B}', 10));
    assert_eq!(state.input, "p");
    assert!(state.warning_since.is_none());
}

#[test]
fn backspace_pops_and_never_underflows() {
    let mut state = locked_state("pw");
    assert!(!state.handle_char('\u{8}', 10));
    assert_eq!(state.input, "");
    state.handle_char('a', 10);
    state.handle_char('b', 10);
    state.handle_char('\u{8}', 10);
    assert_eq!(state.input, "a");
    state.handle_char('\u{8}', 10);
    state.handle_char('\u{8}', 10);
    assert_eq!(state.input, "");
}

#[test]
fn matching_password_unlocks() {
    let mut state = locked_state("pw");
    state.handle_char('p', 10);
    state.handle_char('w', 10);
    assert!(state.handle_char('\r', 10));
    assert_eq!(state.input, "pw");
}

#[test]
fn mismatch_clears_input_and_arms_warning() {
    let mut state = locked_state("pw");
    state.handle_char('x', 10);
    assert!(!state.handle_char('\r', 50));
    assert_eq!(state.input, "");
    assert_eq!(state.warning_since, Some(50));
    assert!(warning_active(&state, 50));
}

#[test]
fn empty_submit_against_password_is_a_mismatch() {
    let mut state = locked_state("pw");
    assert!(!state.handle_char('\r', 50));
    assert!(warning_active(&state, 50));
}

#[test]
fn wrong_then_right_password_end_to_end() {
    let mut state = locked_state("hunter2");
    for ch in "hunter1".chars() {
        assert!(!state.handle_char(ch, 100));
    }
    assert!(!state.handle_char('\r', 200));
    assert_eq!(state.input, "");
    assert!(warning_active(&state, 200));

    for ch in "hunter2".chars() {
        assert!(!state.handle_char(ch, 300));
    }
    assert!(state.handle_char('\r', 400));
}

#[test]
fn active_game_owns_character_input() {
    let mut state = locked_state("pw");
    state.game = MiniGameState { active: true, target: 'q', last_update: 0, score: 0, misses: 0 };
    assert!(!state.handle_char('\r', 10));
    assert_eq!(state.input, "");
    assert_eq!(state.game.misses, 1);
    assert!(!state.handle_char('q', 20));
    assert_eq!(state.game.score, 1);
    assert_eq!(state.input, "");
}

#[test]
fn keydown_toggles_and_stops_the_game() {
    let mut state = locked_state("pw");
    state.handle_keydown(0x47, 10);
    assert!(state.game.active);
    state.handle_keydown(0x1B, 20);
    assert!(!state.game.active);
    state.handle_keydown(0x1B, 30);
    assert!(!state.game.active);
    state.handle_keydown(0x41, 40);
    assert!(!state.game.active);
    assert_eq!(state.input, "");
}

#[test]
fn pointer_move_arms_the_warning() {
    let mut state = locked_state("pw");
    state.handle_pointer_move(123);
    assert_eq!(state.warning_since, Some(123));
    assert!(warning_active(&state, 123));
}

#[test]
fn tick_advances_only_the_game() {
    let mut state = locked_state("pw");
    state.game = MiniGameState { active: true, target: 'q', last_update: 0, score: 0, misses: 0 };
    state.handle_char('a', 1);
    state.handle_tick(5000);
    assert_eq!(state.game.misses, 2);
    assert!(state.warning_since.is_none());
}

#[test]
fn warning_is_active_exactly_within_the_duration() {
    let mut state = locked_state("pw");
    assert!(!warning_active(&state, 0));
    arm_warning(&mut state, 1000);
    assert!(warning_active(&state, 1000));
    assert!(warning_active(&state, 1000 + WARNING_DURATION_MS - 1));
    assert!(!warning_active(&state, 1000 + WARNING_DURATION_MS));
    assert!(!warning_active(&state, 1000 + WARNING_DURATION_MS + 5000));
}

#[test]
fn rearming_resets_the_countdown() {
    let mut state = locked_state("pw");
    arm_warning(&mut state, 0);
    let rearm_at = WARNING_DURATION_MS - 2;
    mark_warning(&mut state, rearm_at);
    assert_eq!(state.warning_since, Some(rearm_at));
    assert!(warning_active(&state, rearm_at + WARNING_DURATION_MS - 1));
    assert!(!warning_active(&state, rearm_at + WARNING_DURATION_MS));
}
