//! The static installation manifest: per-application rules for picking an
//! asset, unpacking it, and launching the result, plus the fixed catalog of
//! tracked repositories.

use vstd::prelude::*;

use crate::strutil::split_char;
use crate::strutil::split_char_str;

verus! {

/// Per-application installation rules, loaded from the bundled descriptor.
/// `launch_cmd` may hold the placeholders `{jvm}` (runtime path) and
/// `{app}` (installed executable path).
#[derive(Clone, Debug)]
pub struct InstallationData {
    pub launchable: bool,
    pub launch_cmd: Option<String>,
    pub is_library: bool,
    pub is_manager: bool,
    pub has_extra_folder: bool,
    pub extra_folder_key_word: Option<String>,
    pub extension: Option<String>,
    pub key_word: Option<String>,
    pub app_path: String,
}

impl Default for InstallationData {
    /// The neutral ruleset: nothing launchable, no filters, no renames.
    fn default() -> (d: Self)
        ensures
            d.launchable == false,
            d.launch_cmd.is_none(),
            d.is_library == false,
            d.is_manager == false,
            d.has_extra_folder == false,
            d.extra_folder_key_word.is_none(),
            d.extension.is_none(),
            d.key_word.is_none(),
            d.app_path@ == Seq::<char>::empty(),
    {
        let d = InstallationData {
            launchable: false,
            launch_cmd: None,
            is_library: false,
            is_manager: false,
            has_extra_folder: false,
            extra_folder_key_word: None,
            extension: None,
            key_word: None,
            app_path: String::new(),
        };
        proof {
            assert(d.app_path@ =~= Seq::<char>::empty());
        }
        d
    }
}

/// The fixed set of tracked repositories, as `owner/name` paths.
pub fn github_repos() -> (r: Vec<String>)
    ensures
        r@.len() == TRACKED_APPS as int,
        r@[0]@ == "Open-Lights/OpenLightsCore"@,
        r@[1]@ == "Open-Lights/OpenLightsManager"@,
        r@[2]@ == "Open-Lights/BeatMaker"@,
        r@[3]@ == "Open-Lights/Christmas-Jukebox"@,
        r@[4]@ == "Open-Lights/BeatFileEditor"@,
        r@[5]@ == "graalvm/graalvm-ce-builds"@,
{
    let mut v: Vec<String> = Vec::new();
    v.push(String::from_str("Open-Lights/OpenLightsCore"));
    v.push(String::from_str("Open-Lights/OpenLightsManager"));
    v.push(String::from_str("Open-Lights/BeatMaker"));
    v.push(String::from_str("Open-Lights/Christmas-Jukebox"));
    v.push(String::from_str("Open-Lights/BeatFileEditor"));
    v.push(String::from_str("graalvm/graalvm-ce-builds"));
    v
}

/// How many applications the catalog tracks; each poll cycle spends two
/// requests per application (metadata, then releases).
pub const TRACKED_APPS: u64 = 6;

/// The application name inside an `owner/name` repository path: the second
/// `/`-separated part, or empty when there is none.
pub open spec fn spec_project_name(repo: Seq<char>) -> Seq<char> {
    if split_char(repo, '/').len() >= 2 {
        split_char(repo, '/')[1]
    } else {
        Seq::empty()
    }
}

pub fn project_name_of(repo: &String) -> (r: String)
    ensures
        r@ == spec_project_name(repo@),
{
    let parts: Vec<String> = split_char_str(repo.as_str(), '/');
    if parts.len() >= 2 {
        let mut parts = parts;
        let second: String = parts.remove(1);
        second
    } else {
        let r = String::new();
        proof {
            assert(r@ =~= Seq::<char>::empty());
        }
        r
    }
}

/// Where an application's durable record lives on disk.
pub fn record_path_for(project_name: &String) -> (r: String)
    ensures
        r@ == "openlightsmanager/appdata/"@ + project_name@ + ".json"@,
{
    let mut s: String = String::from_str("openlightsmanager/appdata/");
    s.append(project_name.as_str());
    s.append(".json");
    s
}

} // verus!
