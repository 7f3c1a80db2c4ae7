use open_lights_manager::settings::{
    fix_settings, minutes_between_gh_checks, set_checked_for_update, should_poll, MigrationSettings,
    Settings,
};

#[test]
fn cooldown_minutes_exact_values() {
    assert_eq!(minutes_between_gh_checks(false), 12);
    assert_eq!(minutes_between_gh_checks(true), 1);
}

#[test]
fn polls_after_construction_with_hour_old_timestamp() {
    let now: i64 = 1_700_000_000;
    let s = Settings::initial(now);
    assert_eq!(s.last_github_check, Some(now - 3600));
    assert!(should_poll(&s, now));
    let mut with_token = Settings::initial(now);
    with_token.github_token = "SECRET-REDACTED".to_string();
    assert!(should_poll(&with_token, now));
}

#[test]
fn no_poll_right_after_recorded_check_without_token() {
    let now: i64 = 1_700_000_000;
    let mut s = Settings::initial(now);
    set_checked_for_update(&mut s, now);
    assert_eq!(s.last_github_check, Some(now));
    assert!(!should_poll(&s, now));
}

#[test]
fn override_always_polls() {
    let now: i64 = 1_700_000_000;
    let mut s = Settings::initial(now);
    set_checked_for_update(&mut s, now);
    s.override_rate_limit = true;
    assert!(should_poll(&s, now));
}

#[test]
fn token_shortens_cooldown() {
    let now: i64 = 1_700_000_000;
    let mut s = Settings::initial(now);
    set_checked_for_update(&mut s, now - 120);
    assert!(!should_poll(&s, now));
    s.github_token = "SECRET-REDACTED".to_string();
    assert!(should_poll(&s, now));
}

#[test]
fn recording_a_poll_keeps_other_settings() {
    let now: i64 = 1_700_000_000;
    let mut s = Settings::initial(now);
    s.jvm_path = "/usr/bin/java".to_string();
    s.unstable_releases = true;
    set_checked_for_update(&mut s, now + 5);
    assert_eq!(s.jvm_path, "/usr/bin/java");
    assert!(s.unstable_releases);
    assert_eq!(s.last_github_check, Some(now + 5));
}

#[test]
fn fix_settings_fills_missing_fields_with_defaults() {
    let now: i64 = 1_700_000_000;
    let partial = MigrationSettings {
        unstable_releases: Some(true),
        dark_theme: None,
        jvm_path: None,
        github_token: Some("SECRET-REDACTED".to_string()),
        last_github_check: None,
        override_rate_limit: None,
    };
    let s = fix_settings(partial, now);
    assert!(s.unstable_releases);
    assert!(s.dark_theme);
    assert_eq!(s.jvm_path, "");
    assert_eq!(s.github_token, "SECRET-REDACTED");
    assert_eq!(s.last_github_check, Some(now - 3600));
    assert!(!s.override_rate_limit);
}

#[test]
fn fix_settings_keeps_recovered_timestamp() {
    let now: i64 = 1_700_000_000;
    let partial = MigrationSettings {
        unstable_releases: None,
        dark_theme: Some(false),
        jvm_path: Some("/opt/jdk/bin/java".to_string()),
        github_token: None,
        last_github_check: Some(123_456),
        override_rate_limit: Some(true),
    };
    let s = fix_settings(partial, now);
    assert!(!s.dark_theme);
    assert_eq!(s.jvm_path, "/opt/jdk/bin/java");
    assert_eq!(s.last_github_check, Some(123_456));
    assert!(s.override_rate_limit);
}
