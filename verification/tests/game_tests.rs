use dwmlock::game::MiniGameState;

fn active_game(target: char) -> MiniGameState {
    MiniGameState { active: true, target, last_update: 1000, score: 0, misses: 0 }
}

#[test]
fn new_game_target_is_letter_or_digit() {
    for _ in 0..50 {
        let game = MiniGameState::new(true, 0);
        let t = game.target;
        assert!(t.is_ascii_lowercase() || t.is_ascii_digit(), "target was {t:?}");
    }
}

#[test]
fn inactive_game_consumes_nothing_and_stays_put() {
    let mut game = MiniGameState::new(false, 0);
    let before_score = game.score;
    let before_misses = game.misses;
    let before_target = game.target;
    assert!(!game.handle_char('a', 5));
    assert!(!game.handle_char('\r', 5));
    assert_eq!(game.score, before_score);
    assert_eq!(game.misses, before_misses);
    assert_eq!(game.target, before_target);
    assert!(!game.active);
}

#[test]
fn correct_hit_scores_and_rerolls() {
    let mut game = active_game('q');
    assert!(game.handle_char('q', 2000));
    assert_eq!(game.score, 1);
    assert_eq!(game.misses, 0);
    assert_eq!(game.last_update, 2000);
}

#[test]
fn hit_is_case_insensitive() {
    let mut game = active_game('q');
    assert!(game.handle_char('Q', 2000));
    assert_eq!(game.score, 1);
    assert_eq!(game.misses, 0);
}

#[test]
fn wrong_ascii_counts_a_miss_and_is_consumed() {
    let mut game = active_game('q');
    assert!(game.handle_char('!', 2000));
    assert_eq!(game.score, 0);
    assert_eq!(game.misses, 1);
    assert_eq!(game.target, 'q');
    assert_eq!(game.last_update, 1000);
}

#[test]
fn non_ascii_is_consumed_but_ignored() {
    let mut game = active_game('q');
    assert!(game.handle_char('é', 2000));
    assert_eq!(game.score, 0);
    assert_eq!(game.misses, 0);
}

#[test]
fn tick_before_timeout_changes_nothing() {
    let mut game = active_game('q');
    game.tick(1000 + 4999);
    assert_eq!(game.misses, 0);
    assert_eq!(game.target, 'q');
    assert_eq!(game.last_update, 1000);
}

#[test]
fn tick_at_timeout_penalizes_idle_player() {
    let mut game = active_game('q');
    game.tick(1000 + 5000);
    assert_eq!(game.misses, 1);
    assert_eq!(game.score, 0);
    assert_eq!(game.last_update, 6000);
}

#[test]
fn tick_on_inactive_game_is_a_no_op() {
    let mut game = MiniGameState { active: false, ..active_game('q') };
    game.tick(100_000);
    assert_eq!(game.misses, 0);
    assert_eq!(game.last_update, 1000);
}

#[test]
fn toggle_flips_activity_and_keeps_counters() {
    let mut game = MiniGameState { score: 7, misses: 3, ..active_game('q') };
    game.toggle(9000);
    assert!(!game.active);
    assert_eq!(game.score, 7);
    assert_eq!(game.misses, 3);
    assert_eq!(game.last_update, 9000);
    game.toggle(9500);
    assert!(game.active);
    let t = game.target;
    assert!(t.is_ascii_lowercase() || t.is_ascii_digit());
}

#[test]
fn stop_forces_inactive_without_toggling() {
    let mut game = MiniGameState { score: 2, ..active_game('z') };
    game.stop();
    assert!(!game.active);
    assert_eq!(game.score, 2);
    assert_eq!(game.target, 'z');
    game.stop();
    assert!(!game.active);
}

#[test]
fn target_display_is_uppercased() {
    let game = active_game('q');
    assert_eq!(game.target_display(), "Q");
    let game = active_game('7');
    assert_eq!(game.target_display(), "7");
}
