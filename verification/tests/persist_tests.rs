use open_lights_manager::github::{AssetData, GithubData, ReleaseData};
use open_lights_manager::notifications::{
    app_installation_failure, app_installation_success, java_failure_corrupted,
    java_failure_invalid, java_failure_issue, java_success, launched_application,
    launched_application_missing_java, manager_installation_success, rate_limit_notification,
    Timer,
};
use open_lights_manager::persist::{record_to_json, settings_to_json};
use open_lights_manager::record::App;
use open_lights_manager::settings::Settings;

fn small_app() -> App {
    App::default(
        "Core".to_string(),
        "openlightsmanager/appdata/Core.json".to_string(),
        "1.0.0".to_string(),
        "../assets/Core.png".to_string(),
        "o/r".to_string(),
        GithubData {
            description: "desc".to_string(),
            archived: false,
            releases_url: "u{/id}".to_string(),
        },
        ReleaseData {
            tag_name: "v1.0.0".to_string(),
            prerelease: false,
            id: 3,
            assets: vec![AssetData { size: 12, browser_download_url: "https://h/a.zip".to_string() }],
        },
        false,
        true,
    )
}

#[test]
fn saving_twice_is_byte_identical() {
    let app = small_app();
    let first = record_to_json(&app);
    let second = record_to_json(&app);
    assert_eq!(first.as_bytes(), second.as_bytes());
}

#[test]
fn record_json_exact_text() {
    let json = record_to_json(&small_app());
    let expected = "{\"installed\":false,\"name\":\"Core\",\"path\":\"openlightsmanager/appdata/Core.json\",\"app_path\":\"\",\"version\":\"1.0.0\",\"image_url\":\"../assets/Core.png\",\"github_repo\":\"o/r\",\"github_data\":{\"description\":\"desc\",\"archived\":false,\"releases_url\":\"u{/id}\"},\"release_data\":{\"tag_name\":\"v1.0.0\",\"prerelease\":false,\"id\":3,\"assets\":[{\"size\":12,\"browser_download_url\":\"https://h/a.zip\"}]},\"has_update\":false,\"update_download_url\":null,\"launchable\":true}";
    assert_eq!(json, expected);
}

#[test]
fn record_json_is_valid_json_with_escapes() {
    let mut app = small_app();
    app.name = "Odd \"name\"\\with\nescapes\t!".to_string();
    app.update_download_url = Some("https://h/b.zip".to_string());
    let json = record_to_json(&app);
    let value: serde_json::Value = serde_json::from_str(&json).expect("well-formed JSON");
    assert_eq!(
        value.get("name").and_then(|v| v.as_str()),
        Some("Odd \"name\"\\with\nescapes\t!")
    );
    assert_eq!(
        value.get("update_download_url").and_then(|v| v.as_str()),
        Some("https://h/b.zip")
    );
    assert_eq!(value.get("installed").and_then(|v| v.as_bool()), Some(false));
    assert_eq!(
        value
            .get("release_data")
            .and_then(|r| r.get("assets"))
            .and_then(|a| a.as_array())
            .map(|a| a.len()),
        Some(1)
    );
}

#[test]
fn settings_json_exact_text() {
    let mut s = Settings::initial(1_700_000_000);
    s.jvm_path = "/usr/bin/java".to_string();
    let json = settings_to_json(&s);
    let expected = "{\"unstable_releases\":false,\"dark_theme\":true,\"jvm_path\":\"/usr/bin/java\",\"github_token\":\"\",\"last_github_check\":1699996400,\"override_rate_limit\":false}";
    assert_eq!(json, expected);
}

#[test]
fn settings_json_roundtrips_through_a_parser() {
    let mut s = Settings::initial(1_700_000_000);
    s.github_token = "SECRET-REDACTED".to_string();
    s.override_rate_limit = true;
    let json = settings_to_json(&s);
    let value: serde_json::Value = serde_json::from_str(&json).expect("well-formed JSON");
    assert_eq!(value.get("github_token").and_then(|v| v.as_str()), Some("SECRET-REDACTED"));
    assert_eq!(value.get("override_rate_limit").and_then(|v| v.as_bool()), Some(true));
    assert_eq!(
        value.get("last_github_check").and_then(|v| v.as_i64()),
        Some(1_700_000_000 - 3600)
    );
}

#[test]
fn notification_texts_and_durations() {
    let n = rate_limit_notification();
    assert_eq!(n.title, "Github Rate Limited");
    assert_eq!(n.timer.duration, 30_000);
    assert!(n.id >= 0);

    let f = app_installation_failure(&"Core".to_string());
    assert_eq!(f.title, "App Installation Failure");
    assert!(f.message.starts_with("Core has failed to install."));
    assert_eq!(f.timer.duration, 15_000);

    let ok = app_installation_success(&"Core".to_string());
    assert_eq!(ok.message, "Core has installed.");

    let m = manager_installation_success();
    assert_eq!(m.title, "Open Lights Manager Installation Successful");

    let l = launched_application(&"Core".to_string());
    assert_eq!(l.title, "Core is launching...");
    assert_eq!(l.timer.duration, 10_000);

    let missing = launched_application_missing_java(&"Core".to_string());
    assert_eq!(missing.title, "Core failed to launch");
}

#[test]
fn java_check_notifications() {
    let ok = java_success("openjdk 17.0.2".to_string());
    assert_eq!(ok.title, "Java Check Success");
    assert_eq!(ok.message, "openjdk 17.0.2 has been checked.");
    assert_eq!(ok.timer.duration, 15_000);
    assert_eq!(java_failure_corrupted().title, "Java Check Failure");
    assert_eq!(java_failure_invalid().title, "Java Check Failure");
    assert_eq!(java_failure_issue().title, "Java Check Failure");
}

#[test]
fn timer_elapses_exactly_at_its_duration() {
    let t = Timer::new(1_000, 500);
    assert!(!t.update(1_000));
    assert!(!t.update(1_499));
    assert!(t.update(1_500));
    assert!(t.update(2_000));
}
