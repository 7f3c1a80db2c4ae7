//! The launcher: resolves the concrete command line for an installed
//! application from the manifest's launch template. Spawning the child
//! process happens outside; the plan below says exactly what to spawn.

use vstd::prelude::*;

use crate::manifest::InstallationData;
use crate::record::{same_identity_except_progress, App, AppEvents};
use crate::strutil::{contains_str, contains_sub, replace_str, spec_replace, split_blanks,
    split_blanks_str};

verus! {

/// What the caller must do to launch: nothing (a required runtime is
/// missing), or spawn `program` with `args`, rooted at `workdir`.
pub enum LaunchPlan {
    MissingRuntime,
    Spawn { program: String, workdir: String, args: Vec<String> },
}

/// The effective launch template: the manifest's command, or the
/// application name followed by its executable path when the manifest
/// declares none.
pub open spec fn spec_launch_cmd(app: App, d: InstallationData) -> Seq<char> {
    match d.launch_cmd {
        Some(c) => c@,
        None => app.name@ + d.app_path@,
    }
}

/// The argument text: the template with the runtime token dropped and the
/// executable token replaced by the executable path (slashes removed).
pub open spec fn spec_filled_cmd(app: App, d: InstallationData) -> Seq<char> {
    spec_replace(
        spec_replace(spec_launch_cmd(app, d), "{jvm} "@, Seq::empty()),
        "{app}"@,
        spec_replace(d.app_path@, "/"@, Seq::empty()),
    )
}

/// Resolves the launch command for an installed application. When the
/// template asks for a runtime (`{jvm}`) and none is configured, the
/// launch fails fast with no process spawned and the record untouched;
/// otherwise the record notes the running phase and the plan carries the
/// resolved program, working directory and argument list.
pub fn launch_application(
    app: &mut App,
    installation_data: &InstallationData,
    jvm_path: &String,
) -> (r: LaunchPlan)
    ensures
        same_identity_except_progress(*old(app), *final (app)),
        final (app).progress == old(app).progress,
        final (app).installed == old(app).installed,
        final (app).has_update == old(app).has_update,
        ({
            let cmd = spec_launch_cmd(*old(app), *installation_data);
            let needs_jvm = contains_sub(cmd, "{jvm}"@);
            if needs_jvm && jvm_path@.len() == 0 {
                (r matches LaunchPlan::MissingRuntime) && final (app).event == old(app).event
            } else {
                &&& final (app).event matches AppEvents::Running
                &&& (r matches LaunchPlan::Spawn { program, workdir, args } && {
                    &&& program@ == (if needs_jvm {
                        jvm_path@
                    } else {
                        cmd
                    })
                    &&& workdir@ == "openlightsmanager/apps/"@ + old(app).name@ + "/"@
                    &&& args@.len() == split_blanks(
                        spec_filled_cmd(*old(app), *installation_data),
                    ).len()
                    &&& forall|i: int|
                        0 <= i < args@.len() ==> args@[i]@ == split_blanks(
                            spec_filled_cmd(*old(app), *installation_data),
                        )[i]
                })
            }
        }),
{
    let cmd: String = match &installation_data.launch_cmd {
        Some(c) => c.clone(),
        None => {
            let mut s: String = app.name.clone();
            s.append(installation_data.app_path.as_str());
            s
        },
    };
    let needs_jvm: bool = contains_str(cmd.as_str(), "{jvm}");
    if needs_jvm && jvm_path.as_str().unicode_len() == 0 {
        return LaunchPlan::MissingRuntime;
    }
    app.event = AppEvents::Running;
    let program: String = if needs_jvm {
        jvm_path.clone()
    } else {
        cmd.clone()
    };
    let mut workdir: String = String::from_str("openlightsmanager/apps/");
    workdir.append(app.name.as_str());
    workdir.append("/");
    let app_token: String = replace_str(installation_data.app_path.as_str(), "/", "");
    let without_jvm: String = replace_str(cmd.as_str(), "{jvm} ", "");
    let filled: String = replace_str(without_jvm.as_str(), "{app}", app_token.as_str());
    let args: Vec<String> = split_blanks_str(filled.as_str());
    proof {
        reveal_strlit("");
        assert(""@ =~= Seq::<char>::empty());
    }
    LaunchPlan::Spawn { program, workdir, args }
}

} // verus!
