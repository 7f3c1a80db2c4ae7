//! The app record store's in-memory half: materializing a record from a
//! resolved release, reconciling a loaded record with its manifest entry,
//! the update check, and uninstalling. Reading and writing the record
//! files happens outside; serialization lives in the persist module.

use vstd::prelude::*;

use crate::github::{GithubData, ReleaseData};
use crate::manifest::{project_name_of, record_path_for, spec_project_name, InstallationData};
use crate::pipeline::{locate_asset, spec_locate};
use crate::record::{App, AppEvents};
use crate::settings::Settings;
use crate::strutil::str_eq;
use crate::version::{
    is_outdated, lemma_rendered_version, lemma_version_lt_of_tags, parse_semver,
    spec_rendered_version, spec_clean, spec_tag_lt, version_to_string,
};

verus! {

/// Builds the initial record for a repository from its resolved release,
/// as first-time resolution materializes it. The version is the release
/// tag read as a semantic version and re-rendered; a record whose manifest
/// entry marks it as the manager itself is auto-marked installed, since
/// the running program is definitionally already installed.
pub fn build_app_record(
    project: &String,
    github_data: GithubData,
    release_data: ReleaseData,
    installation_data: InstallationData,
) -> (app: App)
    ensures
        app.installed == installation_data.is_manager,
        app.event matches AppEvents::Idle,
        app.name@ == spec_project_name(project@),
        app.path@ == "openlightsmanager/appdata/"@ + spec_project_name(project@) + ".json"@,
        app.app_path == installation_data.app_path,
        app.version@ == spec_rendered_version(spec_clean(release_data.tag_name@)),
        app.image_url@ == "../assets/"@ + spec_project_name(project@) + ".png"@,
        app.github_repo == project,
        app.github_data == github_data,
        app.release_data == release_data,
        app.has_update == false,
        app.update_download_url.is_none(),
        app.launchable == installation_data.launchable,
        app.progress == 0,
        app.thread_communication.events@.len() == 0,
        app.process == 0,
        app.installation_data == installation_data,
{
    let name: String = project_name_of(project);
    let path: String = record_path_for(&name);
    let parsed = parse_semver(&release_data.tag_name);
    proof {
        lemma_rendered_version(spec_clean(release_data.tag_name@), parsed);
    }
    let version: String = version_to_string(&parsed);
    let mut image_url: String = String::from_str("../assets/");
    image_url.append(name.as_str());
    image_url.append(".png");
    let mut app = App::default(
        name,
        path,
        version,
        image_url,
        project.clone(),
        github_data,
        release_data,
        false,
        installation_data.launchable,
    );
    app.installed = installation_data.is_manager;
    app.app_path = installation_data.app_path.clone();
    app.installation_data = installation_data;
    app
}

/// Reconciles a freshly loaded record with its manifest entry: the entry
/// is attached, and the manager rule marks the manager itself installed.
pub fn reconcile_loaded_record(app: &mut App, installation_data: InstallationData)
    ensures
        final (app).installation_data == installation_data,
        final (app).installed == (old(app).installed || installation_data.is_manager),
        final (app).event == old(app).event,
        final (app).has_update == old(app).has_update,
        final (app).name == old(app).name,
        final (app).path == old(app).path,
        final (app).app_path == old(app).app_path,
        final (app).version == old(app).version,
        final (app).image_url == old(app).image_url,
        final (app).github_repo == old(app).github_repo,
        final (app).github_data == old(app).github_data,
        final (app).release_data == old(app).release_data,
        final (app).update_download_url == old(app).update_download_url,
        final (app).launchable == old(app).launchable,
        final (app).progress == old(app).progress,
        final (app).process == old(app).process,
{
    if installation_data.is_manager {
        app.installed = true;
    }
    app.installation_data = installation_data;
}

/// The update check against a freshly resolved release: the record notes
/// an update exactly when the release's tag strictly exceeds the record's
/// current version under semantic-version precedence, and then adopts the
/// release and the download URL its assets and the manifest's filters
/// select.
pub fn check_for_updates(
    app: &mut App,
    latest_release: ReleaseData,
    installation_data: &InstallationData,
) -> (updated: bool)
    ensures
        updated == spec_tag_lt(old(app).version@, latest_release.tag_name@),
        final (app).event == old(app).event,
        final (app).installed == old(app).installed,
        final (app).name == old(app).name,
        final (app).path == old(app).path,
        final (app).app_path == old(app).app_path,
        final (app).version == old(app).version,
        final (app).image_url == old(app).image_url,
        final (app).github_repo == old(app).github_repo,
        final (app).github_data == old(app).github_data,
        final (app).launchable == old(app).launchable,
        final (app).progress == old(app).progress,
        final (app).process == old(app).process,
        final (app).installation_data == old(app).installation_data,
        updated ==> final (app).has_update == true && final (app).release_data == latest_release
            && (final (app).update_download_url matches Some(u) && u@ == spec_locate(
            latest_release.assets@,
            *installation_data,
        )),
        !updated ==> final (app).has_update == old(app).has_update && final (app).release_data
            == old(app).release_data && final (app).update_download_url == old(
            app,
        ).update_download_url,
{
    let current = parse_semver(&app.version);
    let latest = parse_semver(&latest_release.tag_name);
    proof {
        lemma_version_lt_of_tags(
            old(app).version@,
            latest_release.tag_name@,
            current,
            latest,
        );
    }
    if is_outdated(current, latest) {
        app.has_update = true;
        let url: String = locate_asset(&latest_release, installation_data);
        app.update_download_url = Some(url);
        app.release_data = latest_release;
        true
    } else {
        false
    }
}

/// Uninstalling clears the installed flag; the record itself persists so
/// update checks keep working. Removing the on-disk files happens outside.
pub fn uninstall_record(app: &mut App)
    ensures
        final (app).installed == false,
        final (app).event == old(app).event,
        final (app).has_update == old(app).has_update,
        final (app).name == old(app).name,
        final (app).path == old(app).path,
        final (app).app_path == old(app).app_path,
        final (app).version == old(app).version,
        final (app).image_url == old(app).image_url,
        final (app).github_repo == old(app).github_repo,
        final (app).github_data == old(app).github_data,
        final (app).release_data == old(app).release_data,
        final (app).update_download_url == old(app).update_download_url,
        final (app).launchable == old(app).launchable,
        final (app).progress == old(app).progress,
        final (app).process == old(app).process,
        final (app).installation_data == old(app).installation_data,
{
    app.installed = false;
}

/// After an uninstall, a configured runtime path that pointed into the
/// removed installation is cleared; any other configured path stays.
pub fn clear_jvm_if_matches(settings: &mut Settings, removed_executable: &String)
    ensures
        final (settings).jvm_path@ == (if old(settings).jvm_path@ == removed_executable@ {
            Seq::<char>::empty()
        } else {
            old(settings).jvm_path@
        }),
        final (settings).unstable_releases == old(settings).unstable_releases,
        final (settings).dark_theme == old(settings).dark_theme,
        final (settings).github_token == old(settings).github_token,
        final (settings).last_github_check == old(settings).last_github_check,
        final (settings).override_rate_limit == old(settings).override_rate_limit,
{
    if str_eq(settings.jvm_path.as_str(), removed_executable.as_str()) {
        settings.jvm_path = String::new();
    }
}

} // verus!
