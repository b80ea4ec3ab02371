//! The start-up update check.
//!
//! The latest release is looked up in three tiers: the GitHub API directly,
//! then the same API through mirror proxies, then the jsDelivr package
//! metadata (which only knows the newest tag). The network requests are made
//! by the caller; `UpdateCheck` decides, from what each request returned, which
//! request comes next and what the final `UpdateInfo` holds.
use vstd::prelude::*;

use crate::text::{chars_of, concat_strs, ends_with, owned, push_chars, slice_chars, string_from_chars, to_lowercase};
use crate::version::is_newer;

verus! {

// ---------------------------------------------------------------------------
// Fixed addresses
// ---------------------------------------------------------------------------
/// The official "latest release" API of the repository.
pub open spec fn api_url() -> Seq<char> {
    "https://api.github.com/repos/wolfprince12/DSonDT/releases/latest"@
}

/// The official release page of the repository.
pub open spec fn release_page() -> Seq<char> {
    "https://github.com/wolfprince12/DSonDT/releases/latest"@
}

/// The jsDelivr metadata of the repository.
pub open spec fn jsdelivr_url() -> Seq<char> {
    "https://data.jsdelivr.com/v1/packages/gh/wolfprince12/DSonDT"@
}

/// Download mirrors, in order of preference; each is put in front of a full
/// `https://github.com/...` address.
pub open spec fn download_mirrors() -> Seq<Seq<char>> {
    seq!["https://ghfast.top/"@, "https://gh-proxy.com/"@, "https://ghproxy.net/"@]
}

/// Mirrors that can also proxy the GitHub API.
pub open spec fn api_mirrors() -> Seq<Seq<char>> {
    seq!["https://gh-proxy.com/"@]
}

fn api_url_string() -> (res: String)
    ensures
        res@ == api_url(),
{
    owned("https://api.github.com/repos/wolfprince12/DSonDT/releases/latest")
}

fn release_page_string() -> (res: String)
    ensures
        res@ == release_page(),
{
    owned("https://github.com/wolfprince12/DSonDT/releases/latest")
}

fn jsdelivr_url_string() -> (res: String)
    ensures
        res@ == jsdelivr_url(),
{
    owned("https://data.jsdelivr.com/v1/packages/gh/wolfprince12/DSonDT")
}

fn download_mirror_list() -> (res: Vec<String>)
    ensures
        res@.map_values(|s: String| s@) == download_mirrors(),
{
    let mut v: Vec<String> = Vec::new();
    v.push(owned("https://ghfast.top/"));
    v.push(owned("https://gh-proxy.com/"));
    v.push(owned("https://ghproxy.net/"));
    assert(v@.map_values(|s: String| s@) =~= download_mirrors());
    v
}

fn api_mirror_count() -> (n: usize)
    ensures
        n == api_mirrors().len(),
{
    1
}

fn api_mirror(i: usize) -> (res: String)
    requires
        i < api_mirrors().len(),
    ensures
        res@ == api_mirrors()[i as int],
{
    owned("https://gh-proxy.com/")
}

// ---------------------------------------------------------------------------
// Releases
// ---------------------------------------------------------------------------
/// One downloadable file of a release.
#[derive(Clone, Debug)]
pub struct ReleaseAsset {
    pub name: String,
    pub browser_download_url: String,
}

/// A release as the GitHub API describes it.
#[derive(Clone, Debug)]
pub struct Release {
    pub tag_name: String,
    pub body: String,
    pub html_url: String,
    pub assets: Vec<ReleaseAsset>,
}

/// The asset is a macOS disk image: its lower-cased name ends in `.dmg`.
pub open spec fn is_dmg(a: ReleaseAsset) -> bool {
    crate::text::has_suffix(crate::text::lowercase(a.name@), ".dmg"@)
}

/// The download address of the first disk image among `assets`, if any.
pub open spec fn first_dmg(assets: Seq<ReleaseAsset>) -> Option<Seq<char>>
    decreases assets.len(),
{
    if assets.len() == 0 {
        None
    } else if is_dmg(assets[0]) {
        Some(assets[0].browser_download_url@)
    } else {
        first_dmg(assets.drop_first())
    }
}

proof fn lemma_first_dmg_skip(assets: Seq<ReleaseAsset>, i: int)
    requires
        0 <= i <= assets.len(),
        forall|j: int| 0 <= j < i ==> !is_dmg(#[trigger] assets[j]),
    ensures
        first_dmg(assets) == first_dmg(assets.skip(i)),
    decreases i,
{
    if i == 0 {
        assert(assets.skip(0) =~= assets);
    } else {
        assert(!is_dmg(assets[0]));
        let t = assets.drop_first();
        assert forall|j: int| 0 <= j < i - 1 implies !is_dmg(#[trigger] t[j]) by {
            assert(t[j] == assets[j + 1]);
        }
        lemma_first_dmg_skip(t, i - 1);
        assert(t.skip(i - 1) =~= assets.skip(i));
    }
}

/// Picks the macOS installer (`.dmg`) among the release's assets.
pub fn pick_dmg(rel: &Release) -> (res: Option<String>)
    ensures
        res matches Some(u) ==> first_dmg(rel.assets@) == Some(u@),
        res is None ==> first_dmg(rel.assets@) is None,
{
    let suffix = chars_of(".dmg");
    let n = rel.assets.len();
    let mut i: usize = 0;
    while i < n
        invariant
            n == rel.assets.len(),
            suffix@ == ".dmg"@,
            i <= n,
            forall|j: int| 0 <= j < i ==> !is_dmg(#[trigger] rel.assets@[j]),
        decreases n - i,
    {
        let a = &rel.assets[i];
        let lower = to_lowercase(a.name.as_str());
        let lower_chars = chars_of(lower.as_str());
        if ends_with(&lower_chars, &suffix) {
            proof {
                lemma_first_dmg_skip(rel.assets@, i as int);
                assert(rel.assets@.skip(i as int)[0] == rel.assets@[i as int]);
            }
            return Some(a.browser_download_url.clone());
        }
        i = i + 1;
    }
    proof {
        lemma_first_dmg_skip(rel.assets@, n as int);
    }
    None
}

/// Where to download a release found through the API: its disk image, or else
/// its release page, or else the repository's release page.
pub open spec fn release_download(r: Release) -> Seq<char> {
    match first_dmg(r.assets@) {
        Some(u) => u,
        None => if r.html_url@.len() == 0 {
            release_page()
        } else {
            r.html_url@
        },
    }
}

/// `tag` without its leading `v`/`V` characters.
pub open spec fn strip_v(tag: Seq<char>) -> Seq<char> {
    crate::version::skip_while(tag, |c: char| crate::version::is_v(c))
}

/// Where to download a release known only by its tag: the disk image under the
/// fixed naming of every release, `DSonDT-<version>-aarch64.dmg`.
pub open spec fn tag_download(tag: Seq<char>) -> Seq<char> {
    "https://github.com/wolfprince12/DSonDT/releases/download/v"@ + strip_v(tag) + "/DSonDT-"@
        + strip_v(tag) + "-aarch64.dmg"@
}

fn strip_v_chars(tag: &str) -> (res: Vec<char>)
    ensures
        res@ == strip_v(tag@),
{
    let t = chars_of(tag);
    let mut k: usize = 0;
    while k < t.len() && (t[k] == 'v' || t[k] == 'V')
        invariant
            k <= t.len(),
            forall|j: int| 0 <= j < k ==> crate::version::is_v(#[trigger] t@[j]),
        decreases t.len() - k,
    {
        k = k + 1;
    }
    proof {
        crate::version::lemma_while_split(t@, |c: char| crate::version::is_v(c), k as int);
    }
    slice_chars(&t, k, t.len())
}

fn release_download_string(r: &Release) -> (res: String)
    ensures
        res@ == release_download(*r),
{
    match pick_dmg(r) {
        Some(u) => u,
        None => {
            if r.html_url.as_str().is_empty() {
                release_page_string()
            } else {
                r.html_url.clone()
            }
        },
    }
}

fn tag_download_string(tag: &str) -> (res: String)
    ensures
        res@ == tag_download(tag@),
{
    let v = strip_v_chars(tag);
    let mut out = chars_of("https://github.com/wolfprince12/DSonDT/releases/download/v");
    push_chars(&mut out, &v);
    let mid = chars_of("/DSonDT-");
    push_chars(&mut out, &mid);
    push_chars(&mut out, &v);
    let tail = chars_of("-aarch64.dmg");
    push_chars(&mut out, &tail);
    string_from_chars(&out)
}

// ---------------------------------------------------------------------------
// The result of the check
// ---------------------------------------------------------------------------
/// What the check found.
#[derive(Clone, Debug)]
pub struct UpdateInfo {
    /// Whether a remote version was found at all (false: every source failed).
    pub checked: bool,
    /// Whether the remote version is newer than the running one.
    pub has_update: bool,
    /// The running version, without a `v` prefix.
    pub current: String,
    /// The newest remote version, without a `v` prefix.
    pub latest: String,
    /// Whether GitHub answered directly.
    pub github_reachable: bool,
    /// Preferred download: official when GitHub is reachable, else a mirror.
    pub download_url: String,
    /// The download through each mirror.
    pub mirror_urls: Vec<String>,
    /// Release notes (empty when only the tag is known).
    pub notes: String,
    /// The official release page.
    pub release_url: String,
}

impl Default for UpdateInfo {
    fn default() -> (res: UpdateInfo)
        ensures
            !res.checked,
            !res.has_update,
            !res.github_reachable,
            res.current@.len() == 0,
            res.latest@.len() == 0,
            res.download_url@.len() == 0,
            res.mirror_urls@.len() == 0,
            res.notes@.len() == 0,
            res.release_url@.len() == 0,
    {
        UpdateInfo {
            checked: false,
            has_update: false,
            current: String::new(),
            latest: String::new(),
            github_reachable: false,
            download_url: String::new(),
            mirror_urls: Vec::new(),
            notes: String::new(),
            release_url: String::new(),
        }
    }
}

/// Each mirror put in front of `dl`.
pub open spec fn mirrored(dl: Seq<char>) -> Seq<Seq<char>> {
    download_mirrors().map_values(|m: Seq<char>| m + dl)
}

/// `info` reports that no source answered.
pub open spec fn is_unchecked_info(info: UpdateInfo, current: Seq<char>, reachable: bool) -> bool {
    &&& !info.checked
    &&& !info.has_update
    &&& info.current@ == current
    &&& info.latest@.len() == 0
    &&& info.github_reachable == reachable
    &&& info.download_url@.len() == 0
    &&& info.mirror_urls@.len() == 0
    &&& info.notes@.len() == 0
    &&& info.release_url@ == release_page()
}

/// `info` reports the release tagged `tag`, with notes `notes` and official
/// download `dl`: an update exists when that version is newer than `current`,
/// and only then are download addresses given, the official one when GitHub is
/// reachable and the first mirror's otherwise.
pub open spec fn is_checked_info(
    info: UpdateInfo,
    current: Seq<char>,
    reachable: bool,
    tag: Seq<char>,
    notes: Seq<char>,
    dl: Seq<char>,
) -> bool {
    let latest = strip_v(tag);
    let newer = crate::version::version_newer(latest, current);
    &&& info.checked
    &&& info.has_update == newer
    &&& info.current@ == current
    &&& info.latest@ == latest
    &&& info.github_reachable == reachable
    &&& info.notes@ == notes
    &&& info.release_url@ == release_page()
    &&& newer ==> info.mirror_urls@.map_values(|s: String| s@) == mirrored(dl)
    &&& newer ==> info.download_url@ == (if reachable {
        dl
    } else {
        mirrored(dl)[0]
    })
    &&& !newer ==> info.mirror_urls@.len() == 0 && info.download_url@.len() == 0
}

fn unchecked_info(current: &String, reachable: bool) -> (info: UpdateInfo)
    ensures
        is_unchecked_info(info, current@, reachable),
{
    UpdateInfo {
        checked: false,
        has_update: false,
        current: current.clone(),
        latest: String::new(),
        github_reachable: reachable,
        download_url: String::new(),
        mirror_urls: Vec::new(),
        notes: String::new(),
        release_url: release_page_string(),
    }
}

/// Builds the report for a found release (see `is_checked_info`).
pub fn checked_info(current: &String, reachable: bool, tag: &str, notes: String, dl: String) -> (info: UpdateInfo)
    ensures
        is_checked_info(info, current@, reachable, tag@, notes@, dl@),
{
    let latest_chars = strip_v_chars(tag);
    let latest = string_from_chars(&latest_chars);
    let has_update = is_newer(latest.as_str(), current.as_str());
    let mut info = UpdateInfo {
        checked: true,
        has_update,
        current: current.clone(),
        latest,
        github_reachable: reachable,
        download_url: String::new(),
        mirror_urls: Vec::new(),
        notes,
        release_url: release_page_string(),
    };
    if !has_update {
        return info;
    }
    let mirrors = download_mirror_list();
    let mut urls: Vec<String> = Vec::new();
    let mut i: usize = 0;
    while i < mirrors.len()
        invariant
            mirrors@.map_values(|s: String| s@) == download_mirrors(),
            i <= mirrors.len(),
            urls.len() == i,
            forall|j: int| 0 <= j < i ==> #[trigger] urls@[j]@ == mirrored(dl@)[j],
        decreases mirrors.len() - i,
    {
        assert(mirrors@[i as int]@ == download_mirrors()[i as int]);
        urls.push(concat_strs(mirrors[i].as_str(), dl.as_str()));
        i = i + 1;
    }
    assert(urls@.map_values(|s: String| s@) =~= mirrored(dl@));
    let first = urls[0].clone();
    info.mirror_urls = urls;
    info.download_url = if reachable {
        dl
    } else {
        first
    };
    info
}

// ---------------------------------------------------------------------------
// The check as a sequence of requests
// ---------------------------------------------------------------------------
/// Which request the check is waiting for.
#[derive(Clone, Copy, Debug, PartialEq, Eq)]
pub enum UpdatePhase {
    /// The direct request to the GitHub API.
    Direct,
    /// The request through API mirror number `i`.
    Mirror(usize),
    /// The request to jsDelivr for the newest tag.
    LatestTag,
    /// Nothing more: the result was handed out.
    Finished,
}

/// What the caller is to do next.
#[derive(Clone, Debug)]
pub enum UpdateAction {
    /// Fetch a release description from this address, then call `on_release`.
    FetchRelease(String),
    /// Fetch the jsDelivr metadata from this address, then call `on_latest_tag`
    /// with the newest tag it names.
    FetchLatestTag(String),
    /// The check is over; this is its result.
    Finish(UpdateInfo),
}

/// The state of one update check.
#[derive(Clone, Debug)]
pub struct UpdateCheck {
    /// The running version.
    pub current: String,
    /// Whether the direct request got any HTTP answer (even an error status):
    /// that, not the status, tells whether GitHub can be read at all.
    pub github_reachable: bool,
    pub phase: UpdatePhase,
}

/// The action after the release requests came back empty, having tried the
/// API mirrors before index `next`.
pub open spec fn after_empty_release(next: int, phase: UpdatePhase, action: UpdateAction) -> bool {
    if next < api_mirrors().len() {
        &&& phase == UpdatePhase::Mirror(next as usize)
        &&& action matches UpdateAction::FetchRelease(url) && url@ == api_mirrors()[next] + api_url()
    } else {
        &&& phase == UpdatePhase::LatestTag
        &&& action matches UpdateAction::FetchLatestTag(url) && url@ == jsdelivr_url()
    }
}

impl UpdateCheck {
    /// Starts a check for the running version `current`: first the direct API.
    pub fn start(current: &str) -> (res: (UpdateCheck, UpdateAction))
        ensures
            res.0.current@ == current@,
            !res.0.github_reachable,
            res.0.phase == UpdatePhase::Direct,
            res.1 matches UpdateAction::FetchRelease(url) && url@ == api_url(),
    {
        let check = UpdateCheck {
            current: owned(current),
            github_reachable: false,
            phase: UpdatePhase::Direct,
        };
        (check, UpdateAction::FetchRelease(api_url_string()))
    }

    fn next_after_empty(&mut self, next: usize) -> (action: UpdateAction)
        ensures
            final(self).current == old(self).current,
            final(self).github_reachable == old(self).github_reachable,
            after_empty_release(next as int, final(self).phase, action),
    {
        if next < api_mirror_count() {
            self.phase = UpdatePhase::Mirror(next);
            let m = api_mirror(next);
            let api = api_url_string();
            UpdateAction::FetchRelease(concat_strs(m.as_str(), api.as_str()))
        } else {
            self.phase = UpdatePhase::LatestTag;
            UpdateAction::FetchLatestTag(jsdelivr_url_string())
        }
    }

    /// A release request came back. `reached` tells whether the server gave any
    /// HTTP answer; `release` is the release when the answer was a success that
    /// parsed. The direct request decides `github_reachable`; a found release
    /// ends the check; otherwise the next API mirror is tried, and after the
    /// last one jsDelivr.
    pub fn on_release(&mut self, reached: bool, release: Option<Release>) -> (action: UpdateAction)
        requires
            old(self).phase matches UpdatePhase::Direct || (old(self).phase matches UpdatePhase::Mirror(i)
                && i < api_mirrors().len()),
        ensures
            final(self).current == old(self).current,
            final(self).github_reachable == (if old(self).phase == UpdatePhase::Direct {
                reached
            } else {
                old(self).github_reachable
            }),
            release matches Some(r) ==> final(self).phase == UpdatePhase::Finished && (
            action matches UpdateAction::Finish(info) && is_checked_info(
                info,
                old(self).current@,
                final(self).github_reachable,
                r.tag_name@,
                r.body@,
                release_download(r),
            )),
            release is None ==> after_empty_release(
                match old(self).phase {
                    UpdatePhase::Mirror(i) => i + 1,
                    _ => 0,
                },
                final(self).phase,
                action,
            ),
    {
        let next: usize = match self.phase {
            UpdatePhase::Mirror(i) => i + 1,
            _ => {
                self.github_reachable = reached;
                0
            },
        };
        match release {
            Some(r) => {
                let dl = release_download_string(&r);
                let info = checked_info(&self.current, self.github_reachable, r.tag_name.as_str(), r.body.clone(), dl);
                self.phase = UpdatePhase::Finished;
                UpdateAction::Finish(info)
            },
            None => self.next_after_empty(next),
        }
    }

    /// The jsDelivr request came back with the newest tag it names, if any. A
    /// tag ends the check with a report on that version (no notes, download by
    /// the fixed naming); no tag ends it as unchecked.
    pub fn on_latest_tag(&mut self, tag: Option<String>) -> (action: UpdateAction)
        requires
            old(self).phase == UpdatePhase::LatestTag,
        ensures
            final(self).current == old(self).current,
            final(self).github_reachable == old(self).github_reachable,
            final(self).phase == UpdatePhase::Finished,
            tag matches Some(t) ==> (action matches UpdateAction::Finish(info) && is_checked_info(
                info,
                old(self).current@,
                old(self).github_reachable,
                t@,
                Seq::empty(),
                tag_download(t@),
            )),
            tag is None ==> (action matches UpdateAction::Finish(info) && is_unchecked_info(
                info,
                old(self).current@,
                old(self).github_reachable,
            )),
    {
        self.phase = UpdatePhase::Finished;
        match tag {
            Some(t) => {
                let dl = tag_download_string(t.as_str());
                UpdateAction::Finish(checked_info(&self.current, self.github_reachable, t.as_str(), String::new(), dl))
            },
            None => UpdateAction::Finish(unchecked_info(&self.current, self.github_reachable)),
        }
    }
}

/// The tags that the jsDelivr metadata names: its `latest` tag, when it has
/// one, followed by its listed versions.
pub open spec fn metadata_candidates(latest: Option<String>, versions: Seq<String>) -> Seq<Seq<char>> {
    match latest {
        Some(t) => seq![t@] + crate::version::string_views(versions),
        None => crate::version::string_views(versions),
    }
}

/// The newest tag named by the jsDelivr metadata: both its `latest` tag and
/// its listed versions are read, and the largest version wins (the first one
/// on ties); `None` when it names none.
pub fn latest_tag_from_metadata(latest: Option<String>, versions: Vec<String>) -> (res: Option<String>)
    ensures
        metadata_candidates(latest, versions@).len() == 0 ==> res is None,
        metadata_candidates(latest, versions@).len() > 0 ==> (res matches Some(v) && v@
            == crate::version::newest_of(metadata_candidates(latest, versions@))),
{
    let ghost target = metadata_candidates(latest, versions@);
    let mut all: Vec<String> = Vec::new();
    let mut head: usize = 0;
    match latest {
        Some(t) => {
            all.push(t);
            head = 1;
        },
        None => {},
    }
    let mut i: usize = 0;
    while i < versions.len()
        invariant
            target == metadata_candidates(latest, versions@),
            head <= 1,
            head == 1 <==> latest is Some,
            latest matches Some(t) ==> all@[0]@ == t@,
            i <= versions.len(),
            all.len() == head + i,
            forall|j: int| 0 <= j < i ==> #[trigger] all@[head + j]@ == versions@[j]@,
        decreases versions.len() - i,
    {
        all.push(versions[i].clone());
        i = i + 1;
    }
    assert(crate::version::string_views(all@) =~= target) by {
        assert forall|j: int| 0 <= j < all.len() implies crate::version::string_views(all@)[j]
            == target[j] by {
            if head == 1 && j == 0 {
            } else {
                assert(all@[head + (j - head)]@ == versions@[j - head]@);
            }
        }
    }
    crate::version::newest_version(all)
}

} // verus!

verus! {

/// An update is reported only when the remote version is strictly newer than
/// the running one: never for the same version, nor when the running version
/// is newer (a lagging mirror or a development build); and when there is no
/// update, no download is offered.
pub proof fn lemma_update_only_when_newer(
    info: UpdateInfo,
    current: Seq<char>,
    reachable: bool,
    tag: Seq<char>,
    notes: Seq<char>,
    dl: Seq<char>,
)
    requires
        is_checked_info(info, current, reachable, tag, notes, dl),
    ensures
        info.has_update ==> crate::version::version_newer(strip_v(tag), current),
        info.has_update ==> !crate::version::version_newer(current, strip_v(tag)),
        crate::version::version_newer(current, strip_v(tag)) ==> !info.has_update,
        current == strip_v(tag) ==> !info.has_update,
        !info.has_update ==> info.download_url@.len() == 0 && info.mirror_urls@.len() == 0,
{
    crate::version::lemma_newer_asymmetric(current, strip_v(tag));
    crate::version::lemma_newer_irreflexive(current);
}

} // verus!
