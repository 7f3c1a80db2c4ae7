use open_lights_manager::github::{GithubData, ReleaseData};
use open_lights_manager::launcher::{launch_application, LaunchPlan};
use open_lights_manager::manifest::InstallationData;
use open_lights_manager::record::{App, AppEvents};

fn app_named(name: &str) -> App {
    App::default(
        name.to_string(),
        "openlightsmanager/appdata/X.json".to_string(),
        "1.0.0".to_string(),
        "../assets/X.png".to_string(),
        "o/r".to_string(),
        GithubData {
            description: String::new(),
            archived: false,
            releases_url: String::new(),
        },
        ReleaseData {
            tag_name: "v1.0.0".to_string(),
            prerelease: false,
            id: 1,
            assets: Vec::new(),
        },
        false,
        true,
    )
}

#[test]
fn missing_runtime_fails_fast_without_touching_the_record() {
    let mut app = app_named("Core");
    let mut d = InstallationData::default();
    d.launch_cmd = Some("{jvm} -jar {app}".to_string());
    let plan = launch_application(&mut app, &d, &String::new());
    assert!(matches!(plan, LaunchPlan::MissingRuntime));
    assert!(matches!(app.event, AppEvents::Idle));
}

#[test]
fn runtime_template_substitutes_both_tokens() {
    let mut app = app_named("Core");
    let mut d = InstallationData::default();
    d.launch_cmd = Some("{jvm} -jar {app}".to_string());
    d.app_path = "/core.jar".to_string();
    let plan = launch_application(&mut app, &d, &"/usr/bin/java".to_string());
    match plan {
        LaunchPlan::Spawn { program, workdir, args } => {
            assert_eq!(program, "/usr/bin/java");
            assert_eq!(workdir, "openlightsmanager/apps/Core/");
            assert_eq!(args, vec!["-jar".to_string(), "core.jar".to_string()]);
        },
        LaunchPlan::MissingRuntime => panic!("a runtime was configured"),
    }
    assert!(matches!(app.event, AppEvents::Running));
}

#[test]
fn plain_template_runs_without_runtime() {
    let mut app = app_named("Tool");
    let mut d = InstallationData::default();
    d.launch_cmd = Some("tool.exe --serve".to_string());
    let plan = launch_application(&mut app, &d, &String::new());
    match plan {
        LaunchPlan::Spawn { program, workdir, args } => {
            assert_eq!(program, "tool.exe --serve");
            assert_eq!(workdir, "openlightsmanager/apps/Tool/");
            assert_eq!(args, vec!["tool.exe".to_string(), "--serve".to_string()]);
        },
        LaunchPlan::MissingRuntime => panic!("no runtime is required"),
    }
}

#[test]
fn absent_template_falls_back_to_name_and_path() {
    let mut app = app_named("Core");
    let mut d = InstallationData::default();
    d.app_path = "/core.exe".to_string();
    let plan = launch_application(&mut app, &d, &String::new());
    match plan {
        LaunchPlan::Spawn { program, args, .. } => {
            assert_eq!(program, "Core/core.exe");
            assert_eq!(args, vec!["Core/core.exe".to_string()]);
        },
        LaunchPlan::MissingRuntime => panic!("no runtime is required"),
    }
}
