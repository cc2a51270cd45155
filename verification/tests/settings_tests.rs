use dwmlock::keyboard::{is_delete, should_swallow_key_event};
use dwmlock::layout::choose_dimension;
use dwmlock::notifications::looks_like_notification;
use dwmlock::settings::{clamp_blur_radius, default_blur_radius, default_disable_monitors,
    default_dismiss_notifications, default_password, ensure_default, monitor_mode_from_index,
    monitor_mode_option_index, sanitize_settings, MonitorBlankingMode, Settings,
    DEFAULT_BLUR_RADIUS};

#[test]
fn defaults_match_the_documented_record() {
    let settings = Settings::default();
    assert_eq!(settings.password, default_password());
    assert!(!settings.password.trim().is_empty());
    assert_eq!(settings.monitor_mode, MonitorBlankingMode::Custom);
    assert!(settings.disable_monitors.iter().any(|entry| entry == "DISPLAY2"));
    assert!(!settings.open_settings_on_startup);
    assert!(settings.dismiss_notifications_on_startup);
    assert_eq!(settings.blur_radius, DEFAULT_BLUR_RADIUS);
    assert!(settings.blur_enabled);
    assert!(!settings.text_on_all_monitors);
    assert!(!settings.minigame_autostart);
}

#[test]
fn default_helpers_agree_with_default_record() {
    assert_eq!(default_disable_monitors(), vec!["DISPLAY2".to_string()]);
    assert!(default_dismiss_notifications());
    assert_eq!(default_blur_radius(), DEFAULT_BLUR_RADIUS);
    let fallback = ensure_default();
    assert_eq!(fallback.password, default_password());
}

#[test]
fn settings_toggles_are_independent() {
    let mut settings = Settings::default();
    settings.blur_enabled = false;
    settings.text_on_all_monitors = true;
    assert!(!settings.blur_enabled);
    assert!(settings.text_on_all_monitors);
    assert_eq!(settings.monitor_mode, MonitorBlankingMode::Custom);
    assert!(settings.disable_monitors.iter().any(|entry| entry == "DISPLAY2"));
}

#[test]
fn blank_password_falls_back_to_default() {
    let mut settings = Settings { password: "  \t ".to_string(), ..Settings::default() };
    sanitize_settings(&mut settings);
    assert_eq!(settings.password, default_password());
}

#[test]
fn non_blank_password_is_kept() {
    let mut settings = Settings { password: "hunter2".to_string(), ..Settings::default() };
    sanitize_settings(&mut settings);
    assert_eq!(settings.password, "hunter2");
}

#[test]
fn zero_blur_radius_falls_back_to_default() {
    let mut settings = Settings { blur_radius: 0, ..Settings::default() };
    sanitize_settings(&mut settings);
    assert_eq!(settings.blur_radius, DEFAULT_BLUR_RADIUS);
    let mut kept = Settings { blur_radius: 3, ..Settings::default() };
    sanitize_settings(&mut kept);
    assert_eq!(kept.blur_radius, 3);
}

#[test]
fn clone_copies_every_field() {
    let settings = Settings {
        password: "secret".to_string(),
        disable_monitors: vec!["DISPLAY3".to_string()],
        monitor_mode: MonitorBlankingMode::All,
        blur_radius: 17,
        ..Settings::default()
    };
    let copy = settings.clone();
    assert_eq!(copy.password, "secret");
    assert_eq!(copy.disable_monitors, vec!["DISPLAY3".to_string()]);
    assert_eq!(copy.monitor_mode, MonitorBlankingMode::All);
    assert_eq!(copy.blur_radius, 17);
}

#[test]
fn mode_indices_round_trip() {
    for mode in [MonitorBlankingMode::Off, MonitorBlankingMode::All, MonitorBlankingMode::Custom] {
        let index = monitor_mode_option_index(mode).unwrap();
        assert_eq!(monitor_mode_from_index(index as isize), Some(mode));
    }
    assert_eq!(monitor_mode_from_index(-1), None);
    assert_eq!(monitor_mode_from_index(3), None);
}

#[test]
fn blur_radius_is_clamped_to_dialog_range() {
    assert_eq!(clamp_blur_radius(0), 1);
    assert_eq!(clamp_blur_radius(1), 1);
    assert_eq!(clamp_blur_radius(32), 32);
    assert_eq!(clamp_blur_radius(64), 64);
    assert_eq!(clamp_blur_radius(65), 64);
}

#[test]
fn notification_windows_are_recognized() {
    assert!(looks_like_notification("XamlToastView", ""));
    assert!(looks_like_notification("Windows.UI.Notification.Host", ""));
    assert!(looks_like_notification("ApplicationFrameWindow", "New notification"));
    assert!(looks_like_notification("Shell_TrayWnd", "Action Center"));
    assert!(looks_like_notification("Windows.UI.Core.CoreWindow", "Notification area"));
    assert!(!looks_like_notification("Chrome_WidgetWin_1", "Document - Editor"));
    assert!(!looks_like_notification("", ""));
}

#[test]
fn panel_dimension_rules() {
    // Roomy: the preferred size wins, floored at the minimum.
    assert_eq!(choose_dimension(500, 800, 320), 500);
    assert_eq!(choose_dimension(100, 800, 320), 320);
    // Preferred larger than the room: the room wins.
    assert_eq!(choose_dimension(900, 800, 320), 800);
    // Cramped: whatever non-negative room there is.
    assert_eq!(choose_dimension(500, 300, 320), 300);
    assert_eq!(choose_dimension(500, -20, 320), 0);
}

#[test]
fn gate_swallows_exactly_the_interrupt_chord() {
    assert!(is_delete(0x2E));
    assert!(!is_delete(0x2D));
    assert!(should_swallow_key_event(0, 0x100, 0x2E, true, true));
    assert!(should_swallow_key_event(0, 0x104, 0x2E, true, true));
    assert!(!should_swallow_key_event(0, 0x100, 0x2E, false, true));
    assert!(!should_swallow_key_event(0, 0x100, 0x2E, true, false));
    assert!(!should_swallow_key_event(0, 0x100, 0x41, true, true));
    assert!(!should_swallow_key_event(0, 0x101, 0x2E, true, true));
    assert!(!should_swallow_key_event(1, 0x100, 0x2E, true, true));
}
