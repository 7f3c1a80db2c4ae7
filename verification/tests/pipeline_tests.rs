use open_lights_manager::github::{AssetData, ReleaseData};
use open_lights_manager::manifest::InstallationData;
use open_lights_manager::pipeline::{
    download_progress, download_target_path, entry_matches_extra_folder, extract_dir,
    extract_progress, finalize_download, is_archive, locate_asset, relocation_target,
    removal_target,
};
use open_lights_manager::record::AppEvents;

fn asset(url: &str) -> AssetData {
    AssetData { size: 1000, browser_download_url: url.to_string() }
}

fn release_with(urls: &[&str]) -> ReleaseData {
    ReleaseData {
        tag_name: "v1.0.0".to_string(),
        prerelease: false,
        id: 1,
        assets: urls.iter().map(|u| asset(u)).collect(),
    }
}

fn rules() -> InstallationData {
    InstallationData::default()
}

#[test]
fn archive_recognition() {
    for e in ["zip", "rar", "7z", "tar", "gz"] {
        assert!(is_archive(&e.to_string()), "{e} should be recognized");
    }
    assert!(!is_archive(&"exe".to_string()));
    assert!(!is_archive(&"jar".to_string()));
    assert!(!is_archive(&"".to_string()));
}

#[test]
fn asset_selection_by_extension() {
    let rel = release_with(&["https://host/r/a.zip", "https://host/r/a.tar.gz"]);
    let mut d = rules();
    d.extension = Some("zip".to_string());
    assert_eq!(locate_asset(&rel, &d), "https://host/r/a.zip");
}

#[test]
fn asset_selection_ignores_nonmatching_extension() {
    let rel = release_with(&["https://host/r/a.tar.gz", "https://host/r/a.zip"]);
    let mut d = rules();
    d.extension = Some("zip".to_string());
    assert_eq!(locate_asset(&rel, &d), "https://host/r/a.zip");
}

#[test]
fn asset_selection_by_key_word() {
    let rel = release_with(&[
        "https://host/r/tool-windows.zip",
        "https://host/r/tool-linux.zip",
    ]);
    let mut d = rules();
    d.extension = Some("zip".to_string());
    d.key_word = Some("linux".to_string());
    assert_eq!(locate_asset(&rel, &d), "https://host/r/tool-linux.zip");
}

#[test]
fn asset_selection_without_filters_takes_first() {
    let rel = release_with(&["https://host/r/first.bin", "https://host/r/second.bin"]);
    assert_eq!(locate_asset(&rel, &rules()), "https://host/r/first.bin");
}

#[test]
fn asset_selection_handles_odd_urls() {
    // no slash: the whole URL is the file name; no dot: the whole name is
    // the extension
    let rel = release_with(&["plain-binary"]);
    let mut d = rules();
    d.extension = Some("plain-binary".to_string());
    assert_eq!(locate_asset(&rel, &d), "plain-binary");
    d.extension = Some("zip".to_string());
    assert_eq!(locate_asset(&rel, &d), "");
}

#[test]
fn empty_key_word_passes_every_file_name() {
    let rel = release_with(&["https://host/r/a.zip"]);
    let mut d = rules();
    d.key_word = Some(String::new());
    assert_eq!(locate_asset(&rel, &d), "https://host/r/a.zip");
}

#[test]
fn asset_selection_with_no_match_is_empty() {
    let rel = release_with(&["https://host/r/a.tar.gz"]);
    let mut d = rules();
    d.extension = Some("zip".to_string());
    assert_eq!(locate_asset(&rel, &d), "");
}

#[test]
fn download_paths() {
    let mut d = rules();
    let filename = "app.zip".to_string();
    let name = "MyApp".to_string();
    let cwd = "/work".to_string();
    assert_eq!(
        download_target_path(&d, &"zip".to_string(), &filename, &name, &cwd),
        "openlightsmanager/apps/app.zip"
    );
    assert_eq!(
        download_target_path(&d, &"jar".to_string(), &"app.jar".to_string(), &name, &cwd),
        "openlightsmanager/apps/MyApp/app.jar"
    );
    d.is_manager = true;
    assert_eq!(
        download_target_path(&d, &"zip".to_string(), &filename, &name, &cwd),
        "/work/NEW-app.zip"
    );
}

#[test]
fn extraction_dirs_and_relocation() {
    let mut d = rules();
    let name = "MyApp".to_string();
    assert_eq!(extract_dir(&d, &name), "openlightsmanager/apps/MyApp/");
    d.has_extra_folder = true;
    assert_eq!(extract_dir(&d, &name), "openlightsmanager/apps/");
    assert_eq!(relocation_target(&name), "openlightsmanager/apps/MyApp/");
    assert!(entry_matches_extra_folder(
        &"graalvm-ce-17.0".to_string(),
        &"graalvm".to_string()
    ));
    assert!(!entry_matches_extra_folder(&"docs".to_string(), &"graalvm".to_string()));
}

#[test]
fn update_removal_targets() {
    let name = "MyApp".to_string();
    let (path, is_dir) = removal_target(&"zip".to_string(), &name, &"app.zip".to_string());
    assert_eq!(path, "openlightsmanager/apps/MyApp");
    assert!(is_dir);
    let (path, is_dir) = removal_target(&"jar".to_string(), &name, &"app.jar".to_string());
    assert_eq!(path, "openlightsmanager/apps/MyApp/app.jar");
    assert!(!is_dir);
}

#[test]
fn download_progress_rounds_and_clamps() {
    assert_eq!(download_progress(0, 100), 0);
    assert_eq!(download_progress(50, 100), 50);
    assert_eq!(download_progress(100, 100), 100);
    assert_eq!(download_progress(1, 3), 33);
    assert_eq!(download_progress(2, 3), 67);
    assert_eq!(download_progress(0, 0), 0);
    assert_eq!(download_progress(500, 100), 100);
}

#[test]
fn extract_progress_ceiling() {
    assert_eq!(extract_progress(0, 3), 34);
    assert_eq!(extract_progress(1, 3), 67);
    assert_eq!(extract_progress(2, 3), 100);
    assert_eq!(extract_progress(0, 1), 100);
    assert_eq!(extract_progress(0, 200), 1);
}

#[test]
fn finalize_classifies_runtime_manager_and_app() {
    let mut d = rules();
    d.is_library = true;
    d.app_path = "graalvm/bin/java".to_string();
    match finalize_download(&d, &"graalvm-jdk-17.zip".to_string()) {
        AppEvents::JavaInstalled(p) => assert_eq!(p, "graalvm/bin/java"),
        other => panic!("expected a runtime event, got {:?}", other),
    }
    let mut m = rules();
    m.is_manager = true;
    assert!(matches!(
        finalize_download(&m, &"manager.zip".to_string()),
        AppEvents::ManagerInstalled
    ));
    assert!(matches!(
        finalize_download(&rules(), &"app.zip".to_string()),
        AppEvents::AppInstalled
    ));
}
