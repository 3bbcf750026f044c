//! GitHub releases of the launcher's payload, and the version lists the
//! launcher shows: stable releases and nightlies.
use vstd::prelude::*;
use crate::text::owned;

verus! {

broadcast use vstd::std_specs::vec::group_vec_axioms;

/// A release as the GitHub releases API describes it.
#[derive(Debug)]
pub struct GithubRelease {
    pub tag_name: String,
    pub name: Option<String>,
    pub body: Option<String>,
    pub prerelease: bool,
    pub draft: bool,
    pub published_at: Option<String>,
    pub updated_at: String,
    pub html_url: String,
    pub assets: Vec<GithubAsset>,
}

/// A file attached to a GitHub release.
#[derive(Debug)]
pub struct GithubAsset {
    pub name: String,
    pub browser_download_url: String,
    pub size: u64,
}

/// The versions offered to the user.
#[derive(Debug)]
pub struct LauncherGitMetadata {
    pub releases: Vec<LauncherVersion>,
    pub nightlies: Vec<LauncherVersion>,
}

/// One offered version.
#[derive(Debug)]
pub struct LauncherVersion {
    pub tag: String,
    pub name: String,
    pub changelog: String,
    pub updated_at: String,
    pub url: String,
    pub assets: Vec<LauncherAsset>,
}

/// One downloadable file of an offered version.
#[derive(Debug)]
pub struct LauncherAsset {
    pub name: String,
    pub url: String,
    pub size: u64,
}

/// `l` describes the release asset `a`.
pub open spec fn asset_describes(a: GithubAsset, l: LauncherAsset) -> bool {
    &&& l.name@ == a.name@
    &&& l.url@ == a.browser_download_url@
    &&& l.size == a.size
}

/// The name shown for a release: its name, else its tag.
pub open spec fn display_name(r: GithubRelease) -> Seq<char> {
    match r.name {
        Some(n) => n@,
        None => r.tag_name@,
    }
}

/// The changelog shown for a release: its body, else nothing.
pub open spec fn changelog_of(r: GithubRelease) -> Seq<char> {
    match r.body {
        Some(b) => b@,
        None => Seq::empty(),
    }
}

/// The date shown for a release: when it was published, else when it was updated.
pub open spec fn date_of(r: GithubRelease) -> Seq<char> {
    match r.published_at {
        Some(p) => p@,
        None => r.updated_at@,
    }
}

/// `v` is the version shown for release `r`.
pub open spec fn version_describes(r: GithubRelease, v: LauncherVersion) -> bool {
    &&& v.tag@ == r.tag_name@
    &&& v.name@ == display_name(r)
    &&& v.changelog@ == changelog_of(r)
    &&& v.updated_at@ == date_of(r)
    &&& v.url@ == r.html_url@
    &&& v.assets@.len() == r.assets@.len()
    &&& forall|i: int|
        0 <= i < r.assets@.len() ==> #[trigger] asset_describes(r.assets@[i], v.assets@[i])
}

/// `vs` shows the releases `rs`, one for one, in order.
pub open spec fn versions_describe(rs: Seq<GithubRelease>, vs: Seq<LauncherVersion>) -> bool {
    &&& vs.len() == rs.len()
    &&& forall|i: int| 0 <= i < rs.len() ==> #[trigger] version_describes(rs[i], vs[i])
}

/// The published (non-draft) releases of `rs` that are prereleases exactly
/// when `nightly` holds, in order.
pub open spec fn published(rs: Seq<GithubRelease>, nightly: bool) -> Seq<GithubRelease>
    decreases rs.len(),
{
    if rs.len() == 0 {
        Seq::empty()
    } else {
        let prev = published(rs.drop_last(), nightly);
        let r = rs.last();
        if !r.draft && r.prerelease == nightly {
            prev.push(r)
        } else {
            prev
        }
    }
}

fn describe_asset(a: &GithubAsset) -> (l: LauncherAsset)
    ensures
        asset_describes(*a, l),
{
    LauncherAsset { name: owned(a.name.as_str()), url: owned(a.browser_download_url.as_str()), size: a.size }
}

/// The version shown for one release.
pub fn describe_release(r: &GithubRelease) -> (v: LauncherVersion)
    ensures
        version_describes(*r, v),
{
    let name = match &r.name {
        Some(n) => owned(n.as_str()),
        None => owned(r.tag_name.as_str()),
    };
    let changelog = match &r.body {
        Some(b) => owned(b.as_str()),
        None => String::new(),
    };
    let updated_at = match &r.published_at {
        Some(p) => owned(p.as_str()),
        None => owned(r.updated_at.as_str()),
    };
    let mut assets: Vec<LauncherAsset> = Vec::new();
    let mut i: usize = 0;
    while i < r.assets.len()
        invariant
            i <= r.assets@.len(),
            assets@.len() == i,
            forall|j: int| 0 <= j < i ==> #[trigger] asset_describes(r.assets@[j], assets@[j]),
        decreases r.assets@.len() - i,
    {
        assets.push(describe_asset(&r.assets[i]));
        i = i + 1;
    }
    LauncherVersion {
        tag: owned(r.tag_name.as_str()),
        name,
        changelog,
        updated_at,
        url: owned(r.html_url.as_str()),
        assets,
    }
}

/// Sorts the releases into the versions offered: drafts are left out,
/// prereleases become nightlies and the rest stable releases, each list in
/// the order the releases came in.
pub fn git_metadata_from_releases(releases: &Vec<GithubRelease>) -> (m: LauncherGitMetadata)
    ensures
        versions_describe(published(releases@, false), m.releases@),
        versions_describe(published(releases@, true), m.nightlies@),
{
    let mut stable: Vec<LauncherVersion> = Vec::new();
    let mut nightly: Vec<LauncherVersion> = Vec::new();
    let mut i: usize = 0;
    while i < releases.len()
        invariant
            i <= releases@.len(),
            versions_describe(published(releases@.take(i as int), false), stable@),
            versions_describe(published(releases@.take(i as int), true), nightly@),
        decreases releases@.len() - i,
    {
        let ghost t = releases@.take(i + 1);
        assert(t.drop_last() =~= releases@.take(i as int));
        let r = &releases[i];
        if !r.draft {
            let v = describe_release(r);
            if r.prerelease {
                nightly.push(v);
            } else {
                stable.push(v);
            }
        }
        i = i + 1;
    }
    assert(releases@.take(releases@.len() as int) =~= releases@);
    LauncherGitMetadata { releases: stable, nightlies: nightly }
}

/// Number of releases that are not drafts.
pub open spec fn published_count(rs: Seq<GithubRelease>) -> nat
    decreases rs.len(),
{
    if rs.len() == 0 {
        0
    } else {
        published_count(rs.drop_last()) + if rs.last().draft {
            0nat
        } else {
            1nat
        }
    }
}

/// Every published release is offered exactly once, in one of the two
/// lists, and no draft is offered: the lists hold only non-drafts, stable
/// ones only non-prereleases and nightlies only prereleases, and together
/// they are as many as the non-draft releases.
pub proof fn lemma_published_partition(rs: Seq<GithubRelease>)
    ensures
        published(rs, false).len() + published(rs, true).len() == published_count(rs),
        forall|i: int|
            0 <= i < published(rs, false).len() ==> !(#[trigger] published(rs, false)[i]).draft
                && !published(rs, false)[i].prerelease,
        forall|i: int|
            0 <= i < published(rs, true).len() ==> !(#[trigger] published(rs, true)[i]).draft
                && published(rs, true)[i].prerelease,
    decreases rs.len(),
{
    if rs.len() > 0 {
        lemma_published_partition(rs.drop_last());
    }
}

} // verus!
