use open_lights_manager::github::{AssetData, GithubData, ReleaseData};
use open_lights_manager::manifest::InstallationData;
use open_lights_manager::pipeline::{finalize_download, locate_asset, start_install};
use open_lights_manager::record::{
    apply_event, poll_event, send_event, update_app_data, App, AppEvents, EventOutcome,
    ThreadCommunication,
};
use open_lights_manager::store::{
    build_app_record, check_for_updates, clear_jvm_if_matches, reconcile_loaded_record,
    uninstall_record,
};
use open_lights_manager::settings::Settings;

fn sample_github() -> GithubData {
    GithubData {
        description: "Lighting controller".to_string(),
        archived: false,
        releases_url: "https://api.github.com/repos/o/r/releases{/id}".to_string(),
    }
}

fn sample_release(tag: &str, urls: &[&str]) -> ReleaseData {
    ReleaseData {
        tag_name: tag.to_string(),
        prerelease: false,
        id: 7,
        assets: urls
            .iter()
            .map(|u| AssetData { size: 10, browser_download_url: u.to_string() })
            .collect(),
    }
}

fn sample_app() -> App {
    App::default(
        "OpenLightsCore".to_string(),
        "openlightsmanager/appdata/OpenLightsCore.json".to_string(),
        "1.0.0".to_string(),
        "../assets/OpenLightsCore.png".to_string(),
        "Open-Lights/OpenLightsCore".to_string(),
        sample_github(),
        sample_release("v1.0.0", &["https://host/r/core.zip"]),
        false,
        true,
    )
}

#[test]
fn default_record_starts_idle_and_uninstalled() {
    let app = sample_app();
    assert!(!app.installed);
    assert!(matches!(app.event, AppEvents::Idle));
    assert_eq!(app.progress, 0);
    assert_eq!(app.process, 0);
    assert!(app.update_download_url.is_none());
    assert_eq!(app.app_path, "");
    assert!(app.thread_communication.events.is_empty());
}

#[test]
fn event_channel_is_fifo() {
    let mut comms = ThreadCommunication::default();
    assert_eq!(poll_event(&mut comms), None);
    send_event(&mut comms, AppEvents::Downloading);
    send_event(&mut comms, AppEvents::Extracting);
    send_event(&mut comms, AppEvents::AppInstalled);
    assert_eq!(poll_event(&mut comms), Some(AppEvents::Downloading));
    assert_eq!(poll_event(&mut comms), Some(AppEvents::Extracting));
    assert_eq!(poll_event(&mut comms), Some(AppEvents::AppInstalled));
    assert_eq!(poll_event(&mut comms), None);
}

#[test]
fn applying_app_installed_settles_the_record() {
    let mut app = sample_app();
    app.has_update = true;
    let outcome = apply_event(&mut app, AppEvents::AppInstalled);
    assert!(matches!(outcome, EventOutcome::AppReady));
    assert!(app.installed);
    assert!(!app.has_update);
    assert!(matches!(app.event, AppEvents::Idle));
}

#[test]
fn applying_failure_leaves_install_state_alone() {
    let mut app = sample_app();
    app.event = AppEvents::Downloading;
    let outcome = apply_event(&mut app, AppEvents::Failed);
    assert!(matches!(outcome, EventOutcome::FailureNoted));
    assert!(!app.installed);
    assert!(matches!(app.event, AppEvents::Idle));
}

#[test]
fn applying_runtime_event_reports_the_runtime_path() {
    let mut app = sample_app();
    let outcome = apply_event(&mut app, AppEvents::JavaInstalled("jdk/bin/java".to_string()));
    match outcome {
        EventOutcome::RuntimeReady { jvm_relative_path } => {
            assert_eq!(jvm_relative_path, "openlightsmanager/apps/OpenLightsCore/jdk/bin/java");
        },
        other => panic!("expected a runtime outcome, got another: {}", outcome_name(&other)),
    }
    assert!(app.installed);
}

fn outcome_name(o: &EventOutcome) -> &'static str {
    match o {
        EventOutcome::FailureNoted => "FailureNoted",
        EventOutcome::RuntimeReady { .. } => "RuntimeReady",
        EventOutcome::ManagerReady => "ManagerReady",
        EventOutcome::AppReady => "AppReady",
        EventOutcome::PhaseNoted => "PhaseNoted",
    }
}

#[test]
fn applying_phase_events_only_moves_the_phase() {
    let mut app = sample_app();
    let outcome = apply_event(&mut app, AppEvents::Extracting);
    assert!(matches!(outcome, EventOutcome::PhaseNoted));
    assert!(matches!(app.event, AppEvents::Extracting));
    assert!(!app.installed);
}

#[test]
fn update_app_data_adopts_release_tag() {
    let mut app = sample_app();
    app.release_data = sample_release("v1.1.0", &[]);
    app.has_update = true;
    app.update_download_url = Some("https://host/r/core.zip".to_string());
    update_app_data(&mut app);
    assert_eq!(app.version, "v1.1.0");
    assert!(!app.has_update);
    assert!(app.update_download_url.is_none());
}

#[test]
fn build_record_from_first_resolution() {
    let mut d = InstallationData::default();
    d.launchable = true;
    d.app_path = "/core.jar".to_string();
    let project = "Open-Lights/OpenLightsCore".to_string();
    let app = build_app_record(&project, sample_github(), sample_release("v2.1.0-rc.1", &[]), d);
    assert_eq!(app.name, "OpenLightsCore");
    assert_eq!(app.path, "openlightsmanager/appdata/OpenLightsCore.json");
    assert_eq!(app.version, "2.1.0-rc.1");
    assert_eq!(app.image_url, "../assets/OpenLightsCore.png");
    assert_eq!(app.github_repo, "Open-Lights/OpenLightsCore");
    assert_eq!(app.app_path, "/core.jar");
    assert!(app.launchable);
    assert!(!app.installed);
    assert!(!app.has_update);
}

#[test]
fn manager_records_are_born_installed() {
    let mut d = InstallationData::default();
    d.is_manager = true;
    let project = "Open-Lights/OpenLightsManager".to_string();
    let app = build_app_record(&project, sample_github(), sample_release("v1.0.0", &[]), d);
    assert!(app.installed);
}

#[test]
fn reconcile_marks_manager_installed() {
    let mut app = sample_app();
    let mut d = InstallationData::default();
    d.is_manager = true;
    reconcile_loaded_record(&mut app, d);
    assert!(app.installed);
    let mut other = sample_app();
    reconcile_loaded_record(&mut other, InstallationData::default());
    assert!(!other.installed);
}

#[test]
fn update_check_notes_newer_release() {
    let mut app = sample_app();
    let mut d = InstallationData::default();
    d.extension = Some("zip".to_string());
    let latest = sample_release("v1.1.0", &["https://host/r/core-2.tar.gz", "https://host/r/core-2.zip"]);
    let updated = check_for_updates(&mut app, latest, &d);
    assert!(updated);
    assert!(app.has_update);
    assert_eq!(app.release_data.tag_name, "v1.1.0");
    assert_eq!(app.update_download_url.as_deref(), Some("https://host/r/core-2.zip"));
}

#[test]
fn update_check_ignores_older_or_equal_releases() {
    let mut app = sample_app();
    let d = InstallationData::default();
    let updated = check_for_updates(&mut app, sample_release("v1.0.0", &[]), &d);
    assert!(!updated);
    assert!(!app.has_update);
    assert_eq!(app.release_data.tag_name, "v1.0.0");
    let updated = check_for_updates(&mut app, sample_release("v0.9.0", &[]), &d);
    assert!(!updated);
    assert!(!app.has_update);
}

#[test]
fn uninstall_clears_installed_flag_only() {
    let mut app = sample_app();
    app.installed = true;
    uninstall_record(&mut app);
    assert!(!app.installed);
    assert_eq!(app.version, "1.0.0");
}

#[test]
fn uninstall_clears_matching_runtime_path() {
    let now: i64 = 1_700_000_000;
    let mut settings = Settings::initial(now);
    settings.jvm_path = "/abs/apps/G/jdk/bin/java".to_string();
    clear_jvm_if_matches(&mut settings, &"/abs/apps/G/jdk/bin/java".to_string());
    assert_eq!(settings.jvm_path, "");
    settings.jvm_path = "/elsewhere/java".to_string();
    clear_jvm_if_matches(&mut settings, &"/abs/apps/G/jdk/bin/java".to_string());
    assert_eq!(settings.jvm_path, "/elsewhere/java");
}

#[test]
fn fresh_install_end_to_end_leaves_installed_with_zero_progress() {
    // A fresh install of an application with a single zip asset and no
    // extra-folder flag, walked through the pipeline's decisions.
    let mut d = InstallationData::default();
    d.extension = Some("zip".to_string());
    let project = "Open-Lights/OpenLightsCore".to_string();
    let release = sample_release("v1.0.0", &["https://host/r/core.zip"]);
    let mut app = build_app_record(&project, sample_github(), release, d);

    // user intent: the pipeline starts downloading
    start_install(&mut app);
    assert!(matches!(app.event, AppEvents::Downloading));
    assert_eq!(app.progress, 0);

    // the worker picks the asset and finishes; the terminal event travels
    // through the per-application channel
    let url = locate_asset(&app.release_data, &app.installation_data);
    assert_eq!(url, "https://host/r/core.zip");
    let terminal = finalize_download(&app.installation_data, &"core.zip".to_string());
    let mut comms = ThreadCommunication::default();
    send_event(&mut comms, terminal);
    let received = poll_event(&mut comms).expect("exactly one terminal event");
    let outcome = apply_event(&mut app, received);
    assert!(matches!(outcome, EventOutcome::AppReady));
    assert!(app.installed);
    assert_eq!(app.progress, 0);
    assert!(matches!(app.event, AppEvents::Idle));
}
