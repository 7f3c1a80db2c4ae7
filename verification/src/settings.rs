//! Process-wide settings, and the rate-limit governor that decides when
//! polling GitHub is allowed again.

use vstd::prelude::*;

use crate::clock::now_unix_seconds;
use crate::manifest::TRACKED_APPS;

verus! {

/// Process-wide configuration. `last_github_check` is the Unix-second
/// timestamp of the last successful full poll; `None` means no poll has
/// ever been recorded.
#[derive(Clone, Debug)]
pub struct Settings {
    pub unstable_releases: bool,
    pub dark_theme: bool,
    pub jvm_path: String,
    pub github_token: String,
    pub last_github_check: Option<i64>,
    pub override_rate_limit: bool,
}

/// A partially readable settings file: whatever fields could be recovered.
#[derive(Clone, Debug)]
pub struct MigrationSettings {
    pub unstable_releases: Option<bool>,
    pub dark_theme: Option<bool>,
    pub jvm_path: Option<String>,
    pub github_token: Option<String>,
    pub last_github_check: Option<i64>,
    pub override_rate_limit: Option<bool>,
}

impl Settings {
    /// Fresh settings at time `now`: defaults, with the last poll recorded
    /// one hour in the past so that the first poll is allowed at once.
    pub fn initial(now: i64) -> (s: Settings)
        requires
            now >= i64::MIN + 3600,
        ensures
            s.unstable_releases == false,
            s.dark_theme == true,
            s.jvm_path@ == Seq::<char>::empty(),
            s.github_token@ == Seq::<char>::empty(),
            s.last_github_check == Some((now - 3600) as i64),
            s.override_rate_limit == false,
    {
        let s = Settings {
            unstable_releases: false,
            dark_theme: true,
            jvm_path: String::new(),
            github_token: String::new(),
            last_github_check: Some(now - 3600),
            override_rate_limit: false,
        };
        proof {
            assert(s.jvm_path@ =~= Seq::<char>::empty());
            assert(s.github_token@ =~= Seq::<char>::empty());
        }
        s
    }
}

/// Settings recovered from a partial file: each missing field falls back to
/// its default, and a missing poll timestamp falls back to one hour before
/// `now`.
pub fn fix_settings(scavenged: MigrationSettings, now: i64) -> (s: Settings)
    requires
        now >= i64::MIN + 3600,
    ensures
        s.unstable_releases == (match scavenged.unstable_releases {
            Some(b) => b,
            None => false,
        }),
        s.dark_theme == (match scavenged.dark_theme {
            Some(b) => b,
            None => true,
        }),
        s.jvm_path@ == (match scavenged.jvm_path {
            Some(p) => p@,
            None => Seq::<char>::empty(),
        }),
        s.github_token@ == (match scavenged.github_token {
            Some(t) => t@,
            None => Seq::<char>::empty(),
        }),
        s.last_github_check == (match scavenged.last_github_check {
            Some(t) => Some(t),
            None => Some((now - 3600) as i64),
        }),
        s.override_rate_limit == (match scavenged.override_rate_limit {
            Some(b) => b,
            None => false,
        }),
{
    let jvm_path: String = match scavenged.jvm_path {
        Some(p) => p,
        None => String::new(),
    };
    let github_token: String = match scavenged.github_token {
        Some(t) => t,
        None => String::new(),
    };
    let s = Settings {
        unstable_releases: match scavenged.unstable_releases {
            Some(b) => b,
            None => false,
        },
        dark_theme: match scavenged.dark_theme {
            Some(b) => b,
            None => true,
        },
        jvm_path,
        github_token,
        last_github_check: match scavenged.last_github_check {
            Some(t) => Some(t),
            None => Some(now - 3600),
        },
        override_rate_limit: match scavenged.override_rate_limit {
            Some(b) => b,
            None => false,
        },
    };
    s
}

// ---------------------------------------------------------------------------
// the rate-limit governor
// ---------------------------------------------------------------------------

/// The hourly request quota: 5000 with a token, 60 without.
pub open spec fn spec_requests_per_hour(authed: bool) -> int {
    if authed {
        5000
    } else {
        60
    }
}

/// Minutes required between poll cycles:
/// `ceil(60 / requests_per_hour * requests_per_poll_cycle)`, where a poll
/// cycle spends two requests per tracked application.
pub open spec fn spec_minutes_between(authed: bool) -> int {
    (60 * (2 * TRACKED_APPS as int) + spec_requests_per_hour(authed) - 1)
        / spec_requests_per_hour(authed)
}

pub fn minutes_between_gh_checks(authed: bool) -> (r: i64)
    ensures
        r == spec_minutes_between(authed),
{
    let minutes_in_hour: i64 = 60;
    let requests_per_hour: i64 = if authed {
        5000
    } else {
        60
    };
    let requests_per_check: i64 = 2 * (TRACKED_APPS as i64);
    (minutes_in_hour * requests_per_check + requests_per_hour - 1) / requests_per_hour
}

/// Whether polling is allowed at time `now` (Unix seconds): always when the
/// user overrides rate limiting, otherwise only once the elapsed time since
/// the last recorded poll exceeds the required cool-down. With no recorded
/// poll at all, polling is allowed.
pub open spec fn spec_should_poll(s: Settings, now: int) -> bool {
    s.override_rate_limit || match s.last_github_check {
        Some(t) => now - t > 60 * spec_minutes_between(s.github_token@.len() > 0),
        None => true,
    }
}

pub fn should_poll(settings: &Settings, now: i64) -> (r: bool)
    ensures
        r == spec_should_poll(*settings, now as int),
{
    if settings.override_rate_limit {
        return true;
    }
    match settings.last_github_check {
        None => true,
        Some(t) => {
            let authed: bool = settings.github_token.as_str().unicode_len() > 0;
            let required: i64 = minutes_between_gh_checks(authed);
            let elapsed: i128 = (now as i128) - (t as i128);
            elapsed > 60 * (required as i128)
        },
    }
}

/// Polling decision against the wall clock. The time is read here, so only
/// what holds for every reading can be promised; `should_poll` carries the
/// exact contract.
pub fn should_check_github(settings: &Settings) -> (r: bool)
    ensures
        settings.override_rate_limit ==> r,
        settings.last_github_check.is_none() ==> r,
{
    let now: i64 = now_unix_seconds();
    should_poll(settings, now)
}

/// Records `now` as the last successful poll. Only a successful full cycle
/// may be recorded: a rate-limited failure must leave the timestamp alone.
pub fn set_checked_for_update(settings: &mut Settings, now: i64)
    ensures
        final (settings).last_github_check == Some(now),
        final (settings).unstable_releases == old(settings).unstable_releases,
        final (settings).dark_theme == old(settings).dark_theme,
        final (settings).jvm_path == old(settings).jvm_path,
        final (settings).github_token == old(settings).github_token,
        final (settings).override_rate_limit == old(settings).override_rate_limit,
{
    settings.last_github_check = Some(now);
}

// ---------------------------------------------------------------------------
// laws
// ---------------------------------------------------------------------------

/// Law: with the last poll recorded one hour in the past — as fresh
/// settings record it — polling is allowed at once, with or without a
/// token, since the cool-down never exceeds twelve minutes.
pub proof fn lemma_poll_after_construction(s: Settings, now: i64)
    requires
        now >= i64::MIN + 3600,
        s.last_github_check == Some((now - 3600) as i64),
    ensures
        spec_should_poll(s, now as int),
{
}

/// Law: right after a poll is recorded, with no token configured and no
/// override, polling is suppressed: the cool-down is positive.
pub proof fn lemma_no_poll_right_after_check(s: Settings, now: i64)
    requires
        s.last_github_check == Some(now),
        s.github_token@.len() == 0,
        !s.override_rate_limit,
    ensures
        !spec_should_poll(s, now as int),
        spec_minutes_between(false) > 0,
{
}

} // verus!
