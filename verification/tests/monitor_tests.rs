use dwmlock::monitors::{available_monitor_names, blanking_targets, canonicalize_name,
    widestring_to_string, MonitorDescriptor, Rect};
use dwmlock::settings::{MonitorBlankingMode, Settings};

fn rect(left: i32, top: i32, right: i32, bottom: i32) -> Rect {
    Rect { left, top, right, bottom }
}

fn monitor(name: &str, r: Rect) -> MonitorDescriptor {
    MonitorDescriptor { name: name.to_string(), rect: r }
}

fn two_monitors() -> Vec<MonitorDescriptor> {
    vec![
        monitor("DISPLAY1", rect(0, 0, 1920, 1080)),
        monitor("\\\\.\\DISPLAY2", rect(1920, 0, 3840, 1080)),
    ]
}

#[test]
fn canonicalize_handles_case_and_prefix() {
    assert_eq!(canonicalize_name("Display2"), "DISPLAY2");
    assert_eq!(canonicalize_name("DISPLAY2"), "DISPLAY2");
    assert_eq!(canonicalize_name("\\\\.\\DISPLAY2"), "DISPLAY2");
    assert_eq!(canonicalize_name("display2"), "DISPLAY2");
}

#[test]
fn canonicalize_prefixes_bare_names() {
    assert_eq!(canonicalize_name("2"), "DISPLAY2");
    assert_eq!(canonicalize_name(""), "DISPLAY");
}

#[test]
fn canonicalize_trims_whitespace() {
    assert_eq!(canonicalize_name("  display2\t"), "DISPLAY2");
}

#[test]
fn canonicalize_strips_repeated_device_prefix() {
    assert_eq!(canonicalize_name("\\\\.\\\\\\.\\Display7"), "DISPLAY7");
}

#[test]
fn custom_with_empty_list_blanks_nothing() {
    let settings = Settings {
        monitor_mode: MonitorBlankingMode::Custom,
        disable_monitors: Vec::new(),
        ..Settings::default()
    };
    assert!(blanking_targets(&settings, &two_monitors()).is_empty());
}

#[test]
fn all_mode_blanks_every_monitor() {
    let settings = Settings { monitor_mode: MonitorBlankingMode::All, ..Settings::default() };
    let targets = blanking_targets(&settings, &two_monitors());
    assert_eq!(targets.len(), 2);
    assert_eq!(targets[0].name, "DISPLAY1");
    assert_eq!(targets[1].name, "\\\\.\\DISPLAY2");
}

#[test]
fn off_mode_blanks_nothing() {
    let settings = Settings {
        monitor_mode: MonitorBlankingMode::Off,
        disable_monitors: vec!["DISPLAY1".to_string(), "DISPLAY2".to_string()],
        ..Settings::default()
    };
    assert!(blanking_targets(&settings, &two_monitors()).is_empty());
}

#[test]
fn custom_matches_canonicalized_names() {
    // The stored name is canonical while the enumerated one carries the
    // OS device-path prefix; they must still match.
    let settings = Settings {
        monitor_mode: MonitorBlankingMode::Custom,
        disable_monitors: vec!["DISPLAY2".to_string()],
        ..Settings::default()
    };
    let targets = blanking_targets(&settings, &two_monitors());
    assert_eq!(targets.len(), 1);
    assert_eq!(targets[0].name, "\\\\.\\DISPLAY2");
    assert_eq!(targets[0].rect, rect(1920, 0, 3840, 1080));
}

#[test]
fn custom_matches_lowercase_entries() {
    let settings = Settings {
        monitor_mode: MonitorBlankingMode::Custom,
        disable_monitors: vec!["display1".to_string()],
        ..Settings::default()
    };
    let targets = blanking_targets(&settings, &two_monitors());
    assert_eq!(targets.len(), 1);
    assert_eq!(targets[0].name, "DISPLAY1");
}

#[test]
fn names_are_listed_in_enumeration_order() {
    let names = available_monitor_names(&two_monitors());
    assert_eq!(names, vec!["DISPLAY1".to_string(), "\\\\.\\DISPLAY2".to_string()]);
}

#[test]
fn widestring_stops_at_the_first_nul() {
    let mut units: Vec<u16> = "DISPLAY2".encode_utf16().collect();
    units.push(0);
    units.extend("junk".encode_utf16());
    assert_eq!(widestring_to_string(&units), "DISPLAY2");
}

#[test]
fn widestring_without_nul_takes_everything() {
    let units: Vec<u16> = "abc".encode_utf16().collect();
    assert_eq!(widestring_to_string(&units), "abc");
    assert_eq!(widestring_to_string(&[]), "");
}
