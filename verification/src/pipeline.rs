//! The install/update pipeline decisions: which asset to take, where to
//! put it, how progress is reported, and how a finished download is
//! classified. The surrounding I/O (network, archive, filesystem) happens
//! outside; every decision it needs is verified here.

use vstd::prelude::*;

use crate::manifest::InstallationData;
use crate::record::{App, AppEvents};
use crate::github::{AssetData, ReleaseData};
use crate::strutil::{after_last, after_last_str, contains_str, contains_sub, str_eq};
use vstd::arithmetic::div_mod::lemma_div_is_ordered;

verus! {

// ---------------------------------------------------------------------------
// asset selection
// ---------------------------------------------------------------------------

/// The file name of a download URL: everything after the last `/`.
pub open spec fn spec_filename_of(url: Seq<char>) -> Seq<char> {
    after_last(url, '/')
}

/// The extension of a file name: everything after the last `.` (the whole
/// name when it has no dot).
pub open spec fn spec_extension_of(name: Seq<char>) -> Seq<char> {
    after_last(name, '.')
}

/// Whether one asset passes the manifest's filters: the declared extension
/// must match exactly, and the declared key word must occur in the file
/// name; an absent filter passes everything.
pub open spec fn spec_passes_filters(asset: AssetData, d: InstallationData) -> bool {
    (match d.extension {
        Some(e) => spec_extension_of(spec_filename_of(asset.browser_download_url@)) == e@,
        None => true,
    }) && (match d.key_word {
        Some(k) => contains_sub(spec_filename_of(asset.browser_download_url@), k@),
        None => true,
    })
}

/// The download URL of the first asset, in server order, that passes the
/// filters; empty when none passes.
pub open spec fn spec_locate(assets: Seq<AssetData>, d: InstallationData) -> Seq<char>
    decreases assets.len(),
{
    if assets.len() == 0 {
        Seq::empty()
    } else if spec_passes_filters(assets[0], d) {
        assets[0].browser_download_url@
    } else {
        spec_locate(assets.drop_first(), d)
    }
}

fn passes_filters(asset: &AssetData, installation_data: &InstallationData) -> (r: bool)
    ensures
        r == spec_passes_filters(*asset, *installation_data),
{
    let filename: String = after_last_str(asset.browser_download_url.as_str(), '/');
    let ext_ok: bool = match &installation_data.extension {
        Some(e) => {
            let asset_extension: String = after_last_str(filename.as_str(), '.');
            str_eq(asset_extension.as_str(), e.as_str())
        },
        None => true,
    };
    if !ext_ok {
        return false;
    }
    match &installation_data.key_word {
        Some(k) => contains_str(filename.as_str(), k.as_str()),
        None => true,
    }
}

/// Scans the release's assets in server order and returns the download URL
/// of the first one passing the manifest's filters, or an empty string.
pub fn locate_asset(release_data: &ReleaseData, installation_data: &InstallationData) -> (r:
    String)
    ensures
        r@ == spec_locate(release_data.assets@, *installation_data),
{
    let n: usize = release_data.assets.len();
    let mut i: usize = 0;
    let ghost assets = release_data.assets@;
    proof {
        assert(assets.skip(0) =~= assets);
    }
    while i < n
        invariant
            0 <= i <= n,
            n == assets.len(),
            assets == release_data.assets@,
            spec_locate(assets, *installation_data) == spec_locate(
                assets.skip(i as int),
                *installation_data,
            ),
        decreases n - i,
    {
        proof {
            assert(assets.skip(i as int)[0] == assets[i as int]);
            assert(assets.skip(i as int).drop_first() =~= assets.skip(i as int + 1));
        }
        if passes_filters(&release_data.assets[i], installation_data) {
            return release_data.assets[i].browser_download_url.clone();
        }
        i = i + 1;
    }
    proof {
        assert(assets.skip(n as int).len() == 0);
    }
    let r = String::new();
    r
}

// ---------------------------------------------------------------------------
// archive recognition and target paths
// ---------------------------------------------------------------------------

/// The recognized archive extensions. Only zip archives are actually
/// unpacked; the others are recognized but unsupported, a known gap.
pub open spec fn spec_is_archive(e: Seq<char>) -> bool {
    e == "zip"@ || e == "rar"@ || e == "7z"@ || e == "tar"@ || e == "gz"@
}

pub fn is_archive(extension: &String) -> (r: bool)
    ensures
        r == spec_is_archive(extension@),
{
    let s: &str = extension.as_str();
    str_eq(s, "zip") || str_eq(s, "rar") || str_eq(s, "7z") || str_eq(s, "tar") || str_eq(s, "gz")
}

/// The deterministic download target. The manager's own artifact lands in
/// the working directory under a `NEW-` prefix so it cannot collide with
/// the running executable; an archive lands in the shared apps directory;
/// anything else lands inside the application's own directory.
pub fn download_target_path(
    installation_data: &InstallationData,
    asset_extension: &String,
    filename: &String,
    name: &String,
    current_dir: &String,
) -> (r: String)
    ensures
        installation_data.is_manager ==> r@ == current_dir@ + "/NEW-"@ + filename@,
        !installation_data.is_manager && spec_is_archive(asset_extension@) ==> r@
            == "openlightsmanager/apps/"@ + filename@,
        !installation_data.is_manager && !spec_is_archive(asset_extension@) ==> r@
            == "openlightsmanager/apps/"@ + name@ + "/"@ + filename@,
{
    if installation_data.is_manager {
        let mut s: String = current_dir.clone();
        s.append("/NEW-");
        s.append(filename.as_str());
        s
    } else if is_archive(asset_extension) {
        let mut s: String = String::from_str("openlightsmanager/apps/");
        s.append(filename.as_str());
        s
    } else {
        let mut s: String = String::from_str("openlightsmanager/apps/");
        s.append(name.as_str());
        s.append("/");
        s.append(filename.as_str());
        s
    }
}

/// Where an archive is unpacked: the shared apps directory when the
/// archive brings its own top-level folder, else the application's own
/// directory.
pub fn extract_dir(installation_data: &InstallationData, name: &String) -> (r: String)
    ensures
        installation_data.has_extra_folder ==> r@ == "openlightsmanager/apps/"@,
        !installation_data.has_extra_folder ==> r@ == "openlightsmanager/apps/"@ + name@ + "/"@,
{
    if installation_data.has_extra_folder {
        String::from_str("openlightsmanager/apps/")
    } else {
        let mut s: String = String::from_str("openlightsmanager/apps/");
        s.append(name.as_str());
        s.append("/");
        s
    }
}

/// The canonical application directory an extra top-level folder is
/// renamed to.
pub fn relocation_target(name: &String) -> (r: String)
    ensures
        r@ == "openlightsmanager/apps/"@ + name@ + "/"@,
{
    let mut s: String = String::from_str("openlightsmanager/apps/");
    s.append(name.as_str());
    s.append("/");
    s
}

/// Whether an extracted top-level directory entry is the extra folder the
/// manifest announces, by key-word match on its name.
pub fn entry_matches_extra_folder(entry_name: &String, key_word: &String) -> (r: bool)
    ensures
        r == contains_sub(entry_name@, key_word@),
{
    contains_str(entry_name.as_str(), key_word.as_str())
}

/// What an update removes before re-installing: the whole application
/// directory for an archive-based install, the single installed file
/// otherwise. The flag says whether the path is a directory.
pub fn removal_target(asset_extension: &String, name: &String, filename: &String) -> (r: (
    String,
    bool,
))
    ensures
        spec_is_archive(asset_extension@) ==> r.0@ == "openlightsmanager/apps/"@ + name@ && r.1
            == true,
        !spec_is_archive(asset_extension@) ==> r.0@ == "openlightsmanager/apps/"@ + name@ + "/"@
            + filename@ && r.1 == false,
{
    if is_archive(asset_extension) {
        let mut s: String = String::from_str("openlightsmanager/apps/");
        s.append(name.as_str());
        (s, true)
    } else {
        let mut s: String = String::from_str("openlightsmanager/apps/");
        s.append(name.as_str());
        s.append("/");
        s.append(filename.as_str());
        (s, false)
    }
}

// ---------------------------------------------------------------------------
// progress
// ---------------------------------------------------------------------------

/// Download progress: `bytes_read * 100 / content_length`, rounded to the
/// nearest whole percent and clamped to [0, 100]; a zero (unknown) content
/// length reports zero rather than failing.
pub open spec fn spec_download_progress(bytes: nat, len: nat) -> int {
    if len == 0 {
        0
    } else if (bytes as int * 200 + len) / (2 * len as int) > 100 {
        100
    } else {
        (bytes as int * 200 + len) / (2 * len as int)
    }
}

pub fn download_progress(bytes_read: u64, content_length: u64) -> (r: i8)
    ensures
        r == spec_download_progress(bytes_read as nat, content_length as nat),
        0 <= r <= 100,
{
    if content_length == 0 {
        return 0;
    }
    let num: u128 = (bytes_read as u128) * 200 + (content_length as u128);
    let den: u128 = 2 * (content_length as u128);
    let q: u128 = num / den;
    if q > 100 {
        100
    } else {
        q as i8
    }
}

/// Extraction progress after entry `index` of `total`:
/// `ceil((index + 1) * 100 / total)`, always within [1, 100].
pub open spec fn spec_extract_progress(index: nat, total: nat) -> int {
    if total == 0 {
        0
    } else {
        ((index + 1) * 100 + total - 1) / (total as int)
    }
}

pub fn extract_progress(index: usize, total: usize) -> (r: i8)
    requires
        0 < total,
        index < total,
    ensures
        r == spec_extract_progress(index as nat, total as nat),
        1 <= r <= 100,
{
    let num: u128 = ((index as u128) + 1) * 100 + (total as u128) - 1;
    let den: u128 = total as u128;
    let q: u128 = num / den;
    proof {
        assert(num >= den);
        assert(q >= 1) by (nonlinear_arith)
            requires
                q == num / den,
                num >= den,
                den > 0,
        ;
        assert((index as int + 1) * 100 + total - 1 <= 100 * (total as int) + total - 1)
            by (nonlinear_arith)
            requires
                index as int + 1 <= total as int,
        ;
        lemma_div_is_ordered(
            (index as int + 1) * 100 + total - 1,
            100 * (total as int) + total - 1,
            total as int,
        );
        assert((100 * (total as int) + total - 1) / (total as int) == 100) by (nonlinear_arith)
            requires
                total > 0,
        ;
    }
    q as i8
}

// ---------------------------------------------------------------------------
// phase transitions on the worker's record snapshot
// ---------------------------------------------------------------------------

/// User intent starts a pipeline run: the phase becomes downloading and
/// the progress counter resets.
pub fn start_install(app: &mut App)
    ensures
        final (app).event matches AppEvents::Downloading,
        final (app).progress == 0,
        crate::record::same_identity_except_progress(*old(app), *final (app)),
        final (app).installed == old(app).installed,
        final (app).has_update == old(app).has_update,
{
    app.event = AppEvents::Downloading;
    app.progress = 0;
}

/// A finished download of an archive moves the run to extraction; the
/// progress counter resets at the phase boundary.
pub fn begin_extracting(app: &mut App)
    ensures
        final (app).event matches AppEvents::Extracting,
        final (app).progress == 0,
        crate::record::same_identity_except_progress(*old(app), *final (app)),
        final (app).installed == old(app).installed,
        final (app).has_update == old(app).has_update,
{
    app.event = AppEvents::Extracting;
    app.progress = 0;
}

/// Progress resets to zero at the end of a run, whatever its outcome.
pub fn reset_progress(app: &mut App)
    ensures
        final (app).progress == 0,
        final (app).event == old(app).event,
        crate::record::same_identity_except_progress(*old(app), *final (app)),
        final (app).installed == old(app).installed,
        final (app).has_update == old(app).has_update,
{
    app.progress = 0;
}

/// Classifies a finished download into its terminal event: a bundled
/// shared runtime whose chosen file name holds `jdk` announces the runtime
/// path; the manager's own artifact asks for a restart; anything else is a
/// plain installed application.
pub fn finalize_download(installation_data: &InstallationData, filename: &String) -> (e: AppEvents)
    ensures
        installation_data.is_library && contains_sub(filename@, "jdk"@) ==> (
        e matches AppEvents::JavaInstalled(p) && p@ == installation_data.app_path@),
        !(installation_data.is_library && contains_sub(filename@, "jdk"@))
            && installation_data.is_manager ==> e matches AppEvents::ManagerInstalled,
        !(installation_data.is_library && contains_sub(filename@, "jdk"@))
            && !installation_data.is_manager ==> e matches AppEvents::AppInstalled,
{
    if installation_data.is_library && contains_str(filename.as_str(), "jdk") {
        AppEvents::JavaInstalled(installation_data.app_path.clone())
    } else if installation_data.is_manager {
        AppEvents::ManagerInstalled
    } else {
        AppEvents::AppInstalled
    }
}

// ---------------------------------------------------------------------------
// laws
// ---------------------------------------------------------------------------

/// Law: within the download phase, reported progress never decreases as
/// bytes accumulate.
pub proof fn lemma_download_progress_monotone(b1: nat, b2: nat, len: nat)
    requires
        b1 <= b2,
    ensures
        spec_download_progress(b1, len) <= spec_download_progress(b2, len),
{
    if len > 0 {
        lemma_div_is_ordered(
            b1 as int * 200 + len,
            b2 as int * 200 + len,
            2 * len as int,
        );
    }
}

/// Law: within the extraction phase, reported progress never decreases as
/// entries complete.
pub proof fn lemma_extract_progress_monotone(i1: nat, i2: nat, total: nat)
    requires
        i1 <= i2,
    ensures
        spec_extract_progress(i1, total) <= spec_extract_progress(i2, total),
{
    if total > 0 {
        lemma_div_is_ordered(
            (i1 as int + 1) * 100 + total - 1,
            (i2 as int + 1) * 100 + total - 1,
            total as int,
        );
    }
}

} // verus!
