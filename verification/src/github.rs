//! Release metadata from the GitHub API, and the resolver that selects the
//! best release under a stability policy.

use vstd::prelude::*;

use crate::notifications::{rate_limit_notification, Notification};
use crate::strutil::{i32_to_string, replace_str, spec_dec_i64, spec_replace};

verus! {

/// Repository metadata: one object of the repositories endpoint.
#[derive(Clone, Debug)]
pub struct GithubData {
    pub description: String,
    pub archived: bool,
    pub releases_url: String,
}

/// One downloadable artifact of a release.
#[derive(Clone, Debug)]
pub struct AssetData {
    pub size: i32,
    pub browser_download_url: String,
}

/// One release: tag, stability flag, numeric id, and its assets, as the
/// releases endpoint lists them (newest first).
#[derive(Clone, Debug)]
pub struct ReleaseData {
    pub tag_name: String,
    pub prerelease: bool,
    pub id: i32,
    pub assets: Vec<AssetData>,
}

// ---------------------------------------------------------------------------
// request URLs
// ---------------------------------------------------------------------------

/// The metadata URL for a repository path such as `owner/name`.
pub fn api_repo_url(project: &String) -> (r: String)
    ensures
        r@ == "https://api.github.com/repos/"@ + project@,
{
    let mut url: String = String::from_str("https://api.github.com/repos/");
    url.append(project.as_str());
    url
}

/// The releases-list URL: the metadata's template with `{/id}` removed.
pub fn release_list_url(github_data: &GithubData) -> (r: String)
    ensures
        r@ == spec_replace(github_data.releases_url@, "{/id}"@, Seq::<char>::empty()),
{
    let r: String = replace_str(github_data.releases_url.as_str(), "{/id}", "");
    proof {
        reveal_strlit("");
        assert(""@ =~= Seq::<char>::empty());
    }
    r
}

/// The single-release URL: the template with `{/id}` replaced by `/<id>`.
pub fn release_single_url(github_data: &GithubData, id: i32) -> (r: String)
    ensures
        r@ == spec_replace(
            github_data.releases_url@,
            "{/id}"@,
            seq!['/'] + spec_dec_i64(id as int),
        ),
{
    let mut repl: String = String::from_str("/");
    let digits: String = i32_to_string(id);
    repl.append(digits.as_str());
    proof {
        reveal_strlit("/");
        assert(repl@ =~= seq!['/'] + spec_dec_i64(id as int));
    }
    replace_str(github_data.releases_url.as_str(), "{/id}", repl.as_str())
}

// ---------------------------------------------------------------------------
// release selection
// ---------------------------------------------------------------------------

/// Index of the first stable release, in server order; the length when
/// every release is a prerelease.
pub open spec fn first_stable(rs: Seq<ReleaseData>) -> int
    decreases rs.len(),
{
    if rs.len() == 0 {
        0
    } else if !rs[0].prerelease {
        0
    } else {
        1 + first_stable(rs.drop_first())
    }
}

pub proof fn lemma_first_stable(rs: Seq<ReleaseData>)
    ensures
        0 <= first_stable(rs) <= rs.len(),
        forall|j: int| 0 <= j < first_stable(rs) ==> rs[j].prerelease,
        first_stable(rs) < rs.len() ==> !rs[first_stable(rs)].prerelease,
    decreases rs.len(),
{
    if rs.len() == 0 {
    } else if !rs[0].prerelease {
    } else {
        lemma_first_stable(rs.drop_first());
        assert forall|j: int| 0 <= j < first_stable(rs) implies rs[j].prerelease by {
            if j > 0 {
                assert(rs.drop_first()[j - 1] == rs[j]);
            }
        }
        if first_stable(rs) < rs.len() {
            assert(rs.drop_first()[first_stable(rs.drop_first())] == rs[first_stable(rs)]);
        }
    }
}

pub proof fn lemma_first_stable_is(rs: Seq<ReleaseData>, i: int)
    requires
        0 <= i <= rs.len(),
        forall|j: int| 0 <= j < i ==> rs[j].prerelease,
        i < rs.len() ==> !rs[i].prerelease,
    ensures
        i == first_stable(rs),
{
    lemma_first_stable(rs);
    let f = first_stable(rs);
    if f < i {
        assert(rs[f].prerelease);
    } else if i < f {
        assert(rs[i].prerelease);
    }
}

/// The selection policy of the resolver. In server order (newest first):
/// when stability is preferred, the first stable release; failing that, the
/// newest release unless the caller is strict; otherwise simply the newest.
pub open spec fn spec_select_ix(rs: Seq<ReleaseData>, prefer_stable: bool, strict: bool) -> Option<
    int,
> {
    if rs.len() == 0 {
        None
    } else if !prefer_stable {
        Some(0int)
    } else if first_stable(rs) < rs.len() {
        Some(first_stable(rs))
    } else if !strict {
        Some(0int)
    } else {
        None
    }
}

/// Picks the release the policy calls for and returns its index.
pub fn select_release(releases: &Vec<ReleaseData>, prefer_stable: bool, strict: bool) -> (r: Option<
    usize,
>)
    ensures
        match r {
            Some(i) => i < releases@.len() && spec_select_ix(releases@, prefer_stable, strict)
                == Some(i as int),
            None => spec_select_ix(releases@, prefer_stable, strict).is_none(),
        },
{
    let n: usize = releases.len();
    if n == 0 {
        return None;
    }
    if !prefer_stable {
        return Some(0);
    }
    let mut i: usize = 0;
    while i < n
        invariant
            0 <= i <= n,
            n == releases@.len(),
            prefer_stable,
            forall|j: int| 0 <= j < i ==> releases@[j].prerelease,
        decreases n - i,
    {
        if !releases[i].prerelease {
            proof {
                lemma_first_stable_is(releases@, i as int);
            }
            return Some(i);
        }
        i = i + 1;
    }
    proof {
        lemma_first_stable_is(releases@, n as int);
    }
    if !strict {
        Some(0)
    } else {
        None
    }
}

// ---------------------------------------------------------------------------
// the resolver outcome
// ---------------------------------------------------------------------------

/// The synthetic answer for a metadata response that could not be read:
/// conservatively treated as rate limiting, with a placeholder and a
/// user-facing notification.
pub fn rate_limited_output() -> (r: (GithubData, Option<ReleaseData>, Option<Notification>))
    ensures
        r.0.description@ == "Rate limited"@,
        r.0.archived == false,
        r.0.releases_url@ == "Unknown"@,
        r.1.is_none(),
        r.2.is_some(),
        r.2.unwrap().title@ == "Github Rate Limited"@,
{
    let fake_github_data = GithubData {
        description: String::from_str("Rate limited"),
        archived: false,
        releases_url: String::from_str("Unknown"),
    };
    let notification = rate_limit_notification();
    (fake_github_data, None, Some(notification))
}

/// The resolver's decision once the two responses are in hand: a missing
/// metadata object is a rate-limit signal; otherwise the policy picks from
/// the releases list, and an unreadable or empty list means no release.
pub fn resolve_release(
    metadata: Option<GithubData>,
    releases: Option<Vec<ReleaseData>>,
    prefer_stable: bool,
    strict: bool,
) -> (r: (GithubData, Option<ReleaseData>, Option<Notification>))
    ensures
        metadata.is_none() ==> r.0.description@ == "Rate limited"@ && r.0.archived == false
            && r.0.releases_url@ == "Unknown"@ && r.1.is_none() && r.2.is_some()
            && r.2.unwrap().title@ == "Github Rate Limited"@,
        metadata.is_some() ==> r.0 == metadata.unwrap() && r.2.is_none() && (match releases {
            Some(rs) => (match spec_select_ix(rs@, prefer_stable, strict) {
                Some(i) => r.1 == Some(rs@[i]),
                None => r.1.is_none(),
            }),
            None => r.1.is_none(),
        }),
{
    match metadata {
        None => rate_limited_output(),
        Some(github_data) => {
            match releases {
                None => (github_data, None, None),
                Some(mut rs) => {
                    match select_release(&rs, prefer_stable, strict) {
                        None => (github_data, None, None),
                        Some(i) => {
                            let rel: ReleaseData = rs.remove(i);
                            (github_data, Some(rel), None)
                        },
                    }
                },
            }
        },
    }
}

// ---------------------------------------------------------------------------
// laws
// ---------------------------------------------------------------------------

/// Law: with stability preferred and strict, a release list holding only
/// prereleases yields no release — never a prerelease.
pub proof fn lemma_strict_stable_none(rs: Seq<ReleaseData>)
    requires
        forall|i: int| 0 <= i < rs.len() ==> rs[i].prerelease,
    ensures
        spec_select_ix(rs, true, true).is_none(),
{
    lemma_first_stable_is(rs, rs.len() as int);
}

/// Law: with stability preferred but not strict, the same list yields the
/// newest release (the first in server order).
pub proof fn lemma_lenient_newest_prerelease(rs: Seq<ReleaseData>)
    requires
        rs.len() > 0,
        forall|i: int| 0 <= i < rs.len() ==> rs[i].prerelease,
    ensures
        spec_select_ix(rs, true, false) == Some(0int),
{
    lemma_first_stable_is(rs, rs.len() as int);
}

} // verus!
