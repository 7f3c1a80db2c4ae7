//! Durable persistence, the in-memory half: the exact JSON text written
//! for an app record or for the settings. A save is always a full
//! rewrite of one file with this text; writing it to disk happens
//! outside. The text is a pure function of the persisted fields, so
//! saving an unchanged value twice produces byte-identical output.

use vstd::prelude::*;

use crate::github::{AssetData, GithubData, ReleaseData};
use crate::record::App;
use crate::settings::Settings;
use crate::strutil::{i32_to_string, i64_to_string, push_char, spec_dec_i64};

verus! {

// ---------------------------------------------------------------------------
// JSON text building blocks
// ---------------------------------------------------------------------------

pub open spec fn hex_char(d: nat) -> char {
    if d == 0 {
        '0'
    } else if d == 1 {
        '1'
    } else if d == 2 {
        '2'
    } else if d == 3 {
        '3'
    } else if d == 4 {
        '4'
    } else if d == 5 {
        '5'
    } else if d == 6 {
        '6'
    } else if d == 7 {
        '7'
    } else if d == 8 {
        '8'
    } else if d == 9 {
        '9'
    } else if d == 10 {
        'a'
    } else if d == 11 {
        'b'
    } else if d == 12 {
        'c'
    } else if d == 13 {
        'd'
    } else if d == 14 {
        'e'
    } else {
        'f'
    }
}

/// How one character appears inside a JSON string literal.
pub open spec fn escape_char(c: char) -> Seq<char> {
    if c == '"' {
        seq!['\\', '"']
    } else if c == '\\' {
        seq!['\\', '\\']
    } else if c == '\n' {
        seq!['\\', 'n']
    } else if c == '\r' {
        seq!['\\', 'r']
    } else if c == '\t' {
        seq!['\\', 't']
    } else if (c as u32) < 32 {
        seq!['\\', 'u', '0', '0', hex_char((c as u32 / 16) as nat), hex_char((c as u32 % 16) as nat)]
    } else {
        seq![c]
    }
}

pub open spec fn spec_escaped(s: Seq<char>) -> Seq<char>
    decreases s.len(),
{
    if s.len() == 0 {
        Seq::empty()
    } else {
        spec_escaped(s.drop_last()) + escape_char(s.last())
    }
}

/// A JSON string literal: quoted and escaped.
pub open spec fn spec_json_str(s: Seq<char>) -> Seq<char> {
    seq!['"'] + spec_escaped(s) + seq!['"']
}

pub open spec fn spec_json_bool(b: bool) -> Seq<char> {
    if b {
        "true"@
    } else {
        "false"@
    }
}

fn hex_char_exec(d: u32) -> (c: char)
    requires
        d < 16,
    ensures
        c == hex_char(d as nat),
{
    match d {
        0 => '0',
        1 => '1',
        2 => '2',
        3 => '3',
        4 => '4',
        5 => '5',
        6 => '6',
        7 => '7',
        8 => '8',
        9 => '9',
        10 => 'a',
        11 => 'b',
        12 => 'c',
        13 => 'd',
        14 => 'e',
        _ => 'f',
    }
}

fn push_escaped(out: &mut String, s: &str)
    ensures
        final (out)@ == old(out)@ + spec_escaped(s@),
{
    let len: usize = s.unicode_len();
    let mut i: usize = 0;
    proof {
        assert(s@.subrange(0, 0) =~= Seq::<char>::empty());
        assert(old(out)@ + spec_escaped(s@.subrange(0, 0)) =~= old(out)@);
    }
    while i < len
        invariant
            0 <= i <= len,
            len == s@.len(),
            out@ == old(out)@ + spec_escaped(s@.subrange(0, i as int)),
        decreases len - i,
    {
        proof {
            assert(s@.subrange(0, i as int + 1).drop_last() =~= s@.subrange(0, i as int));
            assert(s@.subrange(0, i as int + 1).last() == s@[i as int]);
        }
        let c: char = s.get_char(i);
        if c == '"' {
            push_char(out, '\\');
            push_char(out, '"');
        } else if c == '\\' {
            push_char(out, '\\');
            push_char(out, '\\');
        } else if c == '\n' {
            push_char(out, '\\');
            push_char(out, 'n');
        } else if c == '\r' {
            push_char(out, '\\');
            push_char(out, 'r');
        } else if c == '\t' {
            push_char(out, '\\');
            push_char(out, 't');
        } else if (c as u32) < 32 {
            let v: u32 = c as u32;
            push_char(out, '\\');
            push_char(out, 'u');
            push_char(out, '0');
            push_char(out, '0');
            push_char(out, hex_char_exec(v / 16));
            push_char(out, hex_char_exec(v % 16));
        } else {
            push_char(out, c);
        }
        proof {
            assert(out@ =~= old(out)@ + spec_escaped(s@.subrange(0, i as int + 1)));
        }
        i = i + 1;
    }
    proof {
        assert(s@.subrange(0, len as int) =~= s@);
    }
}

fn push_json_str(out: &mut String, s: &str)
    ensures
        final (out)@ == old(out)@ + spec_json_str(s@),
{
    push_char(out, '"');
    push_escaped(out, s);
    push_char(out, '"');
    proof {
        assert(out@ =~= old(out)@ + spec_json_str(s@));
    }
}

fn push_bool(out: &mut String, b: bool)
    ensures
        final (out)@ == old(out)@ + spec_json_bool(b),
{
    if b {
        out.append("true");
    } else {
        out.append("false");
    }
}

// ---------------------------------------------------------------------------
// the record file
// ---------------------------------------------------------------------------

pub open spec fn spec_github_json(g: GithubData) -> Seq<char> {
    "{\"description\":"@ + spec_json_str(g.description@) + ",\"archived\":"@ + spec_json_bool(
        g.archived,
    ) + ",\"releases_url\":"@ + spec_json_str(g.releases_url@) + "}"@
}

pub open spec fn spec_asset_json(a: AssetData) -> Seq<char> {
    "{\"size\":"@ + spec_dec_i64(a.size as int) + ",\"browser_download_url\":"@ + spec_json_str(
        a.browser_download_url@,
    ) + "}"@
}

pub open spec fn spec_assets_items(s: Seq<AssetData>) -> Seq<char>
    decreases s.len(),
{
    if s.len() == 0 {
        Seq::empty()
    } else if s.len() == 1 {
        spec_asset_json(s[0])
    } else {
        spec_assets_items(s.drop_last()) + ","@ + spec_asset_json(s.last())
    }
}

pub open spec fn spec_release_json(r: ReleaseData) -> Seq<char> {
    "{\"tag_name\":"@ + spec_json_str(r.tag_name@) + ",\"prerelease\":"@ + spec_json_bool(
        r.prerelease,
    ) + ",\"id\":"@ + spec_dec_i64(r.id as int) + ",\"assets\":["@ + spec_assets_items(r.assets@)
        + "]}"@
}

pub open spec fn spec_opt_str_json(o: Option<String>) -> Seq<char> {
    match o {
        Some(s) => spec_json_str(s@),
        None => "null"@,
    }
}

/// The full persisted text of one app record: exactly the durable fields,
/// in a fixed order. Transient state (phase, progress, channel, process
/// id) is not persisted.
pub open spec fn spec_record_json(app: App) -> Seq<char> {
    "{\"installed\":"@ + spec_json_bool(app.installed) + ",\"name\":"@ + spec_json_str(app.name@)
        + ",\"path\":"@ + spec_json_str(app.path@) + ",\"app_path\":"@ + spec_json_str(
        app.app_path@,
    ) + ",\"version\":"@ + spec_json_str(app.version@) + ",\"image_url\":"@ + spec_json_str(
        app.image_url@,
    ) + ",\"github_repo\":"@ + spec_json_str(app.github_repo@) + ",\"github_data\":"@
        + spec_github_json(app.github_data) + ",\"release_data\":"@ + spec_release_json(
        app.release_data,
    ) + ",\"has_update\":"@ + spec_json_bool(app.has_update) + ",\"update_download_url\":"@
        + spec_opt_str_json(app.update_download_url) + ",\"launchable\":"@ + spec_json_bool(
        app.launchable,
    ) + "}"@
}

fn push_github_json(out: &mut String, g: &GithubData)
    ensures
        final (out)@ == old(out)@ + spec_github_json(*g),
{
    out.append("{\"description\":");
    push_json_str(out, g.description.as_str());
    out.append(",\"archived\":");
    push_bool(out, g.archived);
    out.append(",\"releases_url\":");
    push_json_str(out, g.releases_url.as_str());
    out.append("}");
    proof {
        assert(out@ =~= old(out)@ + spec_github_json(*g));
    }
}

fn push_asset_json(out: &mut String, a: &AssetData)
    ensures
        final (out)@ == old(out)@ + spec_asset_json(*a),
{
    out.append("{\"size\":");
    let size: String = i32_to_string(a.size);
    out.append(size.as_str());
    out.append(",\"browser_download_url\":");
    push_json_str(out, a.browser_download_url.as_str());
    out.append("}");
    proof {
        assert(out@ =~= old(out)@ + spec_asset_json(*a));
    }
}

fn push_assets_items(out: &mut String, assets: &Vec<AssetData>)
    ensures
        final (out)@ == old(out)@ + spec_assets_items(assets@),
{
    let n: usize = assets.len();
    let mut i: usize = 0;
    proof {
        assert(assets@.subrange(0, 0) =~= Seq::<AssetData>::empty());
        assert(old(out)@ + spec_assets_items(assets@.subrange(0, 0)) =~= old(out)@);
    }
    while i < n
        invariant
            0 <= i <= n,
            n == assets@.len(),
            out@ == old(out)@ + spec_assets_items(assets@.subrange(0, i as int)),
        decreases n - i,
    {
        proof {
            assert(assets@.subrange(0, i as int + 1).drop_last() =~= assets@.subrange(0, i as int));
            assert(assets@.subrange(0, i as int + 1).last() == assets@[i as int]);
        }
        if i > 0 {
            out.append(",");
        }
        push_asset_json(out, &assets[i]);
        proof {
            assert(out@ =~= old(out)@ + spec_assets_items(assets@.subrange(0, i as int + 1)));
        }
        i = i + 1;
    }
    proof {
        assert(assets@.subrange(0, n as int) =~= assets@);
    }
}

fn push_release_json(out: &mut String, r: &ReleaseData)
    ensures
        final (out)@ == old(out)@ + spec_release_json(*r),
{
    out.append("{\"tag_name\":");
    push_json_str(out, r.tag_name.as_str());
    out.append(",\"prerelease\":");
    push_bool(out, r.prerelease);
    out.append(",\"id\":");
    let id: String = i32_to_string(r.id);
    out.append(id.as_str());
    out.append(",\"assets\":[");
    push_assets_items(out, &r.assets);
    out.append("]}");
    proof {
        assert(out@ =~= old(out)@ + spec_release_json(*r));
    }
}

/// Renders the record's persisted text. A save writes exactly this string
/// over the record's whole file.
pub fn record_to_json(app: &App) -> (r: String)
    ensures
        r@ == spec_record_json(*app),
{
    let mut out: String = String::new();
    out.append("{\"installed\":");
    push_bool(&mut out, app.installed);
    out.append(",\"name\":");
    push_json_str(&mut out, app.name.as_str());
    out.append(",\"path\":");
    push_json_str(&mut out, app.path.as_str());
    out.append(",\"app_path\":");
    push_json_str(&mut out, app.app_path.as_str());
    out.append(",\"version\":");
    push_json_str(&mut out, app.version.as_str());
    out.append(",\"image_url\":");
    push_json_str(&mut out, app.image_url.as_str());
    out.append(",\"github_repo\":");
    push_json_str(&mut out, app.github_repo.as_str());
    out.append(",\"github_data\":");
    push_github_json(&mut out, &app.github_data);
    out.append(",\"release_data\":");
    push_release_json(&mut out, &app.release_data);
    out.append(",\"has_update\":");
    push_bool(&mut out, app.has_update);
    out.append(",\"update_download_url\":");
    match &app.update_download_url {
        Some(u) => push_json_str(&mut out, u.as_str()),
        None => out.append("null"),
    }
    out.append(",\"launchable\":");
    push_bool(&mut out, app.launchable);
    out.append("}");
    proof {
        assert(out@ =~= spec_record_json(*app));
    }
    out
}

// ---------------------------------------------------------------------------
// the settings file
// ---------------------------------------------------------------------------

pub open spec fn spec_opt_seconds_json(o: Option<i64>) -> Seq<char> {
    match o {
        Some(t) => spec_dec_i64(t as int),
        None => "null"@,
    }
}

/// The full persisted text of the settings file.
pub open spec fn spec_settings_json(s: Settings) -> Seq<char> {
    "{\"unstable_releases\":"@ + spec_json_bool(s.unstable_releases) + ",\"dark_theme\":"@
        + spec_json_bool(s.dark_theme) + ",\"jvm_path\":"@ + spec_json_str(s.jvm_path@)
        + ",\"github_token\":"@ + spec_json_str(s.github_token@) + ",\"last_github_check\":"@
        + spec_opt_seconds_json(s.last_github_check) + ",\"override_rate_limit\":"@
        + spec_json_bool(s.override_rate_limit) + "}"@
}

/// Renders the settings' persisted text; a save writes exactly this.
pub fn settings_to_json(s: &Settings) -> (r: String)
    ensures
        r@ == spec_settings_json(*s),
{
    let mut out: String = String::new();
    out.append("{\"unstable_releases\":");
    push_bool(&mut out, s.unstable_releases);
    out.append(",\"dark_theme\":");
    push_bool(&mut out, s.dark_theme);
    out.append(",\"jvm_path\":");
    push_json_str(&mut out, s.jvm_path.as_str());
    out.append(",\"github_token\":");
    push_json_str(&mut out, s.github_token.as_str());
    out.append(",\"last_github_check\":");
    match s.last_github_check {
        Some(t) => {
            let ts: String = i64_to_string(t);
            out.append(ts.as_str());
        },
        None => out.append("null"),
    }
    out.append(",\"override_rate_limit\":");
    push_bool(&mut out, s.override_rate_limit);
    out.append("}");
    proof {
        assert(out@ =~= spec_settings_json(*s));
    }
    out
}

// ---------------------------------------------------------------------------
// laws
// ---------------------------------------------------------------------------

/// Law: the persisted text is a function of the durable fields alone, so
/// saving twice with an unchanged record produces byte-identical output —
/// a save never depends on what the file held before.
pub proof fn lemma_save_idempotent(a: App, b: App)
    requires
        a.installed == b.installed,
        a.name == b.name,
        a.path == b.path,
        a.app_path == b.app_path,
        a.version == b.version,
        a.image_url == b.image_url,
        a.github_repo == b.github_repo,
        a.github_data == b.github_data,
        a.release_data == b.release_data,
        a.has_update == b.has_update,
        a.update_download_url == b.update_download_url,
        a.launchable == b.launchable,
    ensures
        spec_record_json(a) == spec_record_json(b),
{
}

} // verus!
