use squad_ready::settings::{default_nag_interval_millis, default_true, default_volume, Settings};
use squad_ready::text::{find_char_from, str_ends_with, str_eq, strip_account_prefix};
use squad_ready::ui::State;

#[test]
fn default_settings_match_documented_values() {
    let settings = Settings::default();
    assert_eq!(settings.version, 1);
    assert_eq!(settings.ready_check_path, None);
    assert_eq!(settings.squad_ready_path, None);
    assert_eq!(settings.ready_check_volume, 100);
    assert_eq!(settings.squad_ready_volume, 100);
    assert!(settings.flash_window);
    assert!(!settings.ready_check_nag);
    assert!(!settings.ready_check_nag_in_combat);
    assert_eq!(settings.ready_check_nag_interval_millis, 5000);
    assert_eq!(settings.audio_output_device, None);
    assert!(settings.check_for_updates);
    assert!(!settings.include_prereleases);
}

#[test]
fn default_helpers() {
    assert_eq!(default_volume(), 100);
    assert!(default_true());
    assert_eq!(default_nag_interval_millis(), 5000);
}

#[test]
fn account_prefix_is_stripped_once() {
    assert_eq!(strip_account_prefix(":Leader.1234"), "Leader.1234");
    assert_eq!(strip_account_prefix("Leader.1234"), "Leader.1234");
    assert_eq!(strip_account_prefix("::x"), ":x");
    assert_eq!(strip_account_prefix(""), "");
}

#[test]
fn string_helpers() {
    assert!(str_eq("abc", "abc"));
    assert!(!str_eq("abc", "abd"));
    assert!(!str_eq("abc", "ab"));
    assert!(str_ends_with("plugin.dll", ".dll"));
    assert!(!str_ends_with("plugin.dl", ".dll"));
    assert!(str_ends_with("x", ""));
    assert_eq!(find_char_from("a.b.c", '.', 0), Some(1));
    assert_eq!(find_char_from("a.b.c", '.', 2), Some(3));
    assert_eq!(find_char_from("a.b.c", '.', 4), None);
}

#[test]
fn ui_state_starts_empty() {
    let state = State::new();
    assert_eq!(state.ready_check_message, "");
    assert_eq!(state.squad_ready_message, "");
}
