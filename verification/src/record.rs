//! The per-application record: the durable unit of truth, the pipeline
//! events that mutate it, and the ordered event channel between a worker
//! and the interactive side.

use vstd::prelude::*;

use crate::github::{GithubData, ReleaseData};
use crate::manifest::InstallationData;

verus! {

/// Pipeline and launcher events. Terminal pipeline outcomes are
/// `AppInstalled`, `JavaInstalled` (carrying the runtime's path inside the
/// application directory), `ManagerInstalled` and `Failed`.
#[derive(Clone, Debug, PartialEq)]
pub enum AppEvents {
    Idle,
    Downloading,
    Extracting,
    AppInstalled,
    Failed,
    JavaInstalled(String),
    ManagerInstalled,
    Running,
}

/// The ordered event queue between a background worker and the interactive
/// side: strictly first-in, first-out.
#[derive(Debug)]
pub struct ThreadCommunication {
    pub events: Vec<AppEvents>,
}

impl Default for ThreadCommunication {
    fn default() -> (t: Self)
        ensures
            t.events@.len() == 0,
    {
        ThreadCommunication { events: Vec::new() }
    }
}

/// Queues one event at the back.
pub fn send_event(comms: &mut ThreadCommunication, event: AppEvents)
    ensures
        final (comms).events@ == old(comms).events@.push(event),
{
    comms.events.push(event);
}

/// Takes the oldest queued event, if any; events leave in the order they
/// were sent, and an empty read is not an error.
pub fn poll_event(comms: &mut ThreadCommunication) -> (r: Option<AppEvents>)
    ensures
        old(comms).events@.len() == 0 ==> r.is_none() && final (comms).events@ == old(
            comms,
        ).events@,
        old(comms).events@.len() > 0 ==> r == Some(old(comms).events@[0]) && final (comms).events@
            == old(comms).events@.drop_first(),
{
    if comms.events.len() == 0 {
        None
    } else {
        let e: AppEvents = comms.events.remove(0);
        proof {
            assert(final (comms).events@ =~= old(comms).events@.drop_first());
        }
        Some(e)
    }
}

/// The durable record of one managed application, plus its transient
/// pipeline state (`event`, `progress`, the channel, and the child process
/// id, none of which are persisted).
#[derive(Debug)]
pub struct App {
    pub installed: bool,
    pub event: AppEvents,
    pub name: String,
    pub path: String,
    pub app_path: String,
    pub version: String,
    pub image_url: String,
    pub github_repo: String,
    pub github_data: GithubData,
    pub release_data: ReleaseData,
    pub has_update: bool,
    pub update_download_url: Option<String>,
    pub launchable: bool,
    pub progress: i8,
    pub thread_communication: ThreadCommunication,
    pub process: u32,
    pub installation_data: InstallationData,
}

impl App {
    /// A fresh, not-installed record with idle transient state.
    pub fn default(
        name: String,
        path: String,
        version: String,
        image_url: String,
        github_repo: String,
        github_data: GithubData,
        release_data: ReleaseData,
        has_update: bool,
        launchable: bool,
    ) -> (app: Self)
        ensures
            app.installed == false,
            app.event matches AppEvents::Idle,
            app.name == name,
            app.path == path,
            app.app_path@ == Seq::<char>::empty(),
            app.version == version,
            app.image_url == image_url,
            app.github_repo == github_repo,
            app.github_data == github_data,
            app.release_data == release_data,
            app.has_update == has_update,
            app.update_download_url.is_none(),
            app.launchable == launchable,
            app.progress == 0,
            app.thread_communication.events@.len() == 0,
            app.process == 0,
    {
        App {
            installed: false,
            event: AppEvents::Idle,
            name,
            path,
            app_path: String::new(),
            version,
            image_url,
            github_repo,
            github_data,
            release_data,
            has_update,
            update_download_url: None,
            launchable,
            progress: 0,
            thread_communication: ThreadCommunication::default(),
            process: 0,
            installation_data: InstallationData::default(),
        }
    }
}

/// The fields of a record that carry its identity and resolved release,
/// untouched by event application.
pub open spec fn same_identity(a: App, b: App) -> bool {
    &&& a.name == b.name
    &&& a.path == b.path
    &&& a.app_path == b.app_path
    &&& a.version == b.version
    &&& a.image_url == b.image_url
    &&& a.github_repo == b.github_repo
    &&& a.github_data == b.github_data
    &&& a.release_data == b.release_data
    &&& a.update_download_url == b.update_download_url
    &&& a.launchable == b.launchable
    &&& a.progress == b.progress
    &&& a.process == b.process
}

/// As `same_identity`, but leaving the progress counter free to move:
/// what a phase transition keeps.
pub open spec fn same_identity_except_progress(a: App, b: App) -> bool {
    &&& a.name == b.name
    &&& a.path == b.path
    &&& a.app_path == b.app_path
    &&& a.version == b.version
    &&& a.image_url == b.image_url
    &&& a.github_repo == b.github_repo
    &&& a.github_data == b.github_data
    &&& a.release_data == b.release_data
    &&& a.update_download_url == b.update_download_url
    &&& a.launchable == b.launchable
    &&& a.process == b.process
}

/// What the receiver of a terminal event still has to do outside the
/// record itself.
pub enum EventOutcome {
    /// Show the installation-failure notification.
    FailureNoted,
    /// Store the runtime path (after resolving it on disk), persist the
    /// settings and the record, and show the success notification.
    RuntimeReady { jvm_relative_path: String },
    /// Persist the record and prompt for a restart.
    ManagerReady,
    /// Persist the record and show the success notification.
    AppReady,
    /// A non-terminal phase was copied onto the record; nothing to do.
    PhaseNoted,
}

/// Applies one received event to the interactive side's copy of the
/// record: terminal events settle the installed state and reset the phase
/// to idle; non-terminal events only update the phase.
pub fn apply_event(app: &mut App, event: AppEvents) -> (r: EventOutcome)
    ensures
        same_identity(*old(app), *final (app)),
        match event {
            AppEvents::Failed => {
                &&& final (app).event matches AppEvents::Idle
                &&& final (app).installed == old(app).installed
                &&& final (app).has_update == old(app).has_update
                &&& r matches EventOutcome::FailureNoted
            },
            AppEvents::JavaInstalled(p) => {
                &&& final (app).event matches AppEvents::Idle
                &&& final (app).installed == true
                &&& final (app).has_update == old(app).has_update
                &&& (r matches EventOutcome::RuntimeReady { jvm_relative_path } &&
                    jvm_relative_path@ == "openlightsmanager/apps/"@ + old(app).name@ + "/"@ + p@)
            },
            AppEvents::ManagerInstalled => {
                &&& final (app).event matches AppEvents::Idle
                &&& final (app).installed == true
                &&& final (app).has_update == old(app).has_update
                &&& r matches EventOutcome::ManagerReady
            },
            AppEvents::AppInstalled => {
                &&& final (app).event matches AppEvents::Idle
                &&& final (app).installed == true
                &&& final (app).has_update == false
                &&& r matches EventOutcome::AppReady
            },
            _ => {
                &&& final (app).event == event
                &&& final (app).installed == old(app).installed
                &&& final (app).has_update == old(app).has_update
                &&& r matches EventOutcome::PhaseNoted
            },
        },
{
    match event {
        AppEvents::Failed => {
            app.event = AppEvents::Idle;
            EventOutcome::FailureNoted
        },
        AppEvents::JavaInstalled(p) => {
            app.installed = true;
            app.event = AppEvents::Idle;
            let mut rel: String = String::from_str("openlightsmanager/apps/");
            rel.append(app.name.as_str());
            rel.append("/");
            rel.append(p.as_str());
            EventOutcome::RuntimeReady { jvm_relative_path: rel }
        },
        AppEvents::ManagerInstalled => {
            app.installed = true;
            app.event = AppEvents::Idle;
            EventOutcome::ManagerReady
        },
        AppEvents::AppInstalled => {
            app.installed = true;
            app.has_update = false;
            app.event = AppEvents::Idle;
            EventOutcome::AppReady
        },
        other => {
            app.event = other;
            EventOutcome::PhaseNoted
        },
    }
}

/// After a completed update, the record adopts the resolved release's tag
/// as its version and clears the pending-update state.
pub fn update_app_data(app: &mut App)
    ensures
        final (app).version == old(app).release_data.tag_name,
        final (app).update_download_url.is_none(),
        final (app).has_update == false,
        final (app).installed == old(app).installed,
        final (app).event == old(app).event,
        final (app).name == old(app).name,
        final (app).path == old(app).path,
        final (app).app_path == old(app).app_path,
        final (app).image_url == old(app).image_url,
        final (app).github_repo == old(app).github_repo,
        final (app).github_data == old(app).github_data,
        final (app).release_data == old(app).release_data,
        final (app).launchable == old(app).launchable,
        final (app).progress == old(app).progress,
        final (app).process == old(app).process,
{
    app.version = app.release_data.tag_name.clone();
    app.update_download_url = None;
    app.has_update = false;
}

} // verus!
