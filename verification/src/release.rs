//! Release-channel helpers: which published releases qualify, how they
//! order, and which one counts as an update. Fetching, downloading and
//! installing stay outside; this module owns the decisions.

use vstd::prelude::*;

use crate::text::{
    chars_eq, chars_to_string, contains_chars, contains_seq, ends_with_chars, ends_with_seq,
    spec_trim, str_to_chars, trim_chars,
};

verus! {

/// A downloadable file attached to a release.
pub struct GithubAsset {
    pub name: String,
    pub browser_download_url: String,
}

/// Mathematical image of a `GithubAsset`.
#[verifier::ext_equal]
pub ghost struct AssetView {
    pub name: Seq<char>,
    pub browser_download_url: Seq<char>,
}

impl View for GithubAsset {
    type V = AssetView;

    open spec fn view(&self) -> AssetView {
        AssetView { name: self.name@, browser_download_url: self.browser_download_url@ }
    }
}

impl Clone for GithubAsset {
    fn clone(&self) -> (r: Self)
        ensures
            r@ == self@,
    {
        GithubAsset {
            name: self.name.clone(),
            browser_download_url: self.browser_download_url.clone(),
        }
    }
}

/// A published release.
pub struct GithubRelease {
    pub tag_name: String,
    pub name: Option<String>,
    pub body: Option<String>,
    pub draft: bool,
    pub prerelease: bool,
    pub published_at: Option<String>,
    pub assets: Vec<GithubAsset>,
}

/// Mathematical image of a `GithubRelease`.
#[verifier::ext_equal]
pub ghost struct ReleaseView {
    pub tag_name: Seq<char>,
    pub name: Option<Seq<char>>,
    pub body: Option<Seq<char>>,
    pub draft: bool,
    pub prerelease: bool,
    pub published_at: Option<Seq<char>>,
    pub assets: Seq<AssetView>,
}

/// The views of a sequence of assets.
pub open spec fn assets_view(v: Seq<GithubAsset>) -> Seq<AssetView> {
    Seq::new(v.len(), |i: int| v[i]@)
}

impl View for GithubRelease {
    type V = ReleaseView;

    open spec fn view(&self) -> ReleaseView {
        ReleaseView {
            tag_name: self.tag_name@,
            name: match self.name {
                Some(n) => Some(n@),
                None => None,
            },
            body: match self.body {
                Some(b) => Some(b@),
                None => None,
            },
            draft: self.draft,
            prerelease: self.prerelease,
            published_at: match self.published_at {
                Some(p) => Some(p@),
                None => None,
            },
            assets: assets_view(self.assets@),
        }
    }
}

impl Clone for GithubRelease {
    fn clone(&self) -> (r: Self)
        ensures
            r@ == self@,
    {
        let r = GithubRelease {
            tag_name: self.tag_name.clone(),
            name: match &self.name {
                Some(n) => Some(n.clone()),
                None => None,
            },
            body: match &self.body {
                Some(b) => Some(b.clone()),
                None => None,
            },
            draft: self.draft,
            prerelease: self.prerelease,
            published_at: match &self.published_at {
                Some(p) => Some(p.clone()),
                None => None,
            },
            assets: self.assets.clone(),
        };
        proof {
            assert(assets_view(r.assets@) =~= assets_view(self.assets@));
            assert(r@ =~= self@);
        }
        r
    }
}

/// The update channel a user follows.
#[derive(Clone, Copy, PartialEq, Eq, Structural, Debug)]
pub enum UpdateChannel {
    Main,
    Dev,
}

/// A release entry as listed to the user.
pub struct ReleaseVersion {
    pub tag: String,
    pub name: String,
    pub published_at: Option<String>,
}

/// An available update as reported to the user.
pub struct UpdateInfo {
    pub tag: String,
    pub name: String,
    pub notes: Option<String>,
    pub published_at: Option<String>,
}

/// The parts of a version tag, as semver parses it.
pub struct VersionKey {
    pub major: u64,
    pub minor: u64,
    pub patch: u64,
    pub pre: String,
    pub build: String,
}

/// The parts a version tag denotes (after trimming and stripping a leading
/// `v`), or `None` for a tag semver does not accept. A function of the
/// characters alone.
pub uninterp spec fn version_key(s: Seq<char>) -> Option<(u64, u64, u64, Seq<char>, Seq<char>)>;

/// How two tags' versions order under semver (tags that do not parse order
/// below all that do, and equal to each other): negative, zero or positive.
/// A function of the characters alone.
pub uninterp spec fn semver_cmp(a: Seq<char>, b: Seq<char>) -> int;

/// Relies on semver's `Version::parse`, applied to the tag trimmed and
/// stripped of one run of leading `v`s: whether a tag parses, and its parts,
/// depend on the characters alone.
#[verifier::external_body]
pub(crate) fn normalize_version(version: &str) -> (r: Option<VersionKey>)
    ensures
        match r {
            Some(k) => version_key(version@) == Some(
                (k.major, k.minor, k.patch, k.pre@, k.build@),
            ),
            None => version_key(version@) is None,
        },
{
    match semver::Version::parse(version.trim().trim_start_matches('v')) {
        Ok(v) => Some(
            VersionKey {
                major: v.major,
                minor: v.minor,
                patch: v.patch,
                pre: v.pre.as_str().to_string(),
                build: v.build.as_str().to_string(),
            },
        ),
        Err(_) => None,
    }
}

/// Relies on semver's `Version::parse` and the ordering of `Option<Version>`
/// (`None` below `Some`, versions by major, minor, patch, pre-release and
/// build rules): the ordering of two tags depends on their characters alone.
#[verifier::external_body]
fn compare_tag_versions(a: &str, b: &str) -> (r: i8)
    ensures
        r as int == semver_cmp(a@, b@),
        -1 <= r <= 1,
{
    let va = semver::Version::parse(a.trim().trim_start_matches('v')).ok();
    let vb = semver::Version::parse(b.trim().trim_start_matches('v')).ok();
    match va.cmp(&vb) {
        core::cmp::Ordering::Less => -1,
        core::cmp::Ordering::Equal => 0,
        core::cmp::Ordering::Greater => 1,
    }
}

/// Relies on `str::to_lowercase`: the result depends on the characters
/// alone, and an empty string stays empty.
#[verifier::external_body]
fn lowercase(s: &str) -> (r: String)
    ensures
        r@ == lower_of(s@),
        s@.len() == 0 ==> r@.len() == 0,
{
    s.to_lowercase()
}

/// What `str::to_lowercase` returns for the given characters.
pub uninterp spec fn lower_of(s: Seq<char>) -> Seq<char>;

/// The ordering `release_version_desc` realizes.
pub open spec fn ord_of(i: int) -> core::cmp::Ordering {
    if i < 0 {
        core::cmp::Ordering::Less
    } else if i == 0 {
        core::cmp::Ordering::Equal
    } else {
        core::cmp::Ordering::Greater
    }
}

/// Order two releases by version, descending: newest first.
pub fn release_version_desc(a: &GithubRelease, b: &GithubRelease) -> (r: core::cmp::Ordering)
    ensures
        r == ord_of(semver_cmp(b@.tag_name, a@.tag_name)),
{
    let c = compare_tag_versions(b.tag_name.as_str(), a.tag_name.as_str());
    if c < 0 {
        core::cmp::Ordering::Less
    } else if c == 0 {
        core::cmp::Ordering::Equal
    } else {
        core::cmp::Ordering::Greater
    }
}

/// Whether a lowercased asset name is an installer file.
pub open spec fn is_installer_name(lower: Seq<char>) -> bool {
    ends_with_seq(lower, ".msi"@) || ends_with_seq(lower, ".exe"@)
}

/// Whether the asset at `i` is an installer.
pub open spec fn installer_at(assets: Seq<AssetView>, i: int) -> bool {
    is_installer_name(lower_of(assets[i].name))
}

/// Whether some asset of the release is an installer.
pub open spec fn spec_has_supported_asset(r: ReleaseView) -> bool {
    exists|i: int| 0 <= i < r.assets.len() && #[trigger] installer_at(r.assets, i)
}

fn asset_is_installer(asset: &GithubAsset) -> (r: bool)
    ensures
        r == is_installer_name(lower_of(asset@.name)),
{
    let lower = lowercase(asset.name.as_str());
    let cs = str_to_chars(lower.as_str());
    ends_with_chars(&cs, ".msi") || ends_with_chars(&cs, ".exe")
}

/// Whether the release carries an installer asset (`.msi` or `.exe`).
pub fn has_supported_asset(release: &GithubRelease) -> (r: bool)
    ensures
        r == spec_has_supported_asset(release@),
{
    let len = release.assets.len();
    let mut i: usize = 0;
    while i < len
        invariant
            i <= len,
            len == release.assets@.len(),
            forall|j: int| 0 <= j < i ==> !#[trigger] installer_at(release@.assets, j),
        decreases len - i,
    {
        proof {
            assert(release@.assets[i as int] == release.assets@[i as int]@);
        }
        if asset_is_installer(&release.assets[i]) {
            proof {
                assert(installer_at(release@.assets, i as int));
            }
            return true;
        }
        i = i + 1;
    }
    false
}

/// Whether a release survives the common filter: published (not a draft),
/// with a tag semver accepts and an installer asset.
pub open spec fn qualifies(r: ReleaseView) -> bool {
    !r.draft && version_key(r.tag_name) is Some && spec_has_supported_asset(r)
}

/// The qualifying releases, in order.
pub open spec fn spec_qualifying(rs: Seq<ReleaseView>) -> Seq<ReleaseView>
    decreases rs.len(),
{
    if rs.len() == 0 {
        Seq::empty()
    } else {
        (if qualifies(rs[0]) {
            seq![rs[0]]
        } else {
            Seq::empty()
        }) + spec_qualifying(rs.drop_first())
    }
}

/// The views of a sequence of releases.
pub open spec fn releases_view(v: Seq<GithubRelease>) -> Seq<ReleaseView> {
    Seq::new(v.len(), |i: int| v[i]@)
}

fn release_qualifies(r: &GithubRelease) -> (b: bool)
    ensures
        b == qualifies(r@),
{
    if r.draft {
        return false;
    }
    if normalize_version(r.tag_name.as_str()).is_none() {
        return false;
    }
    has_supported_asset(r)
}

/// The releases an installer rollback may choose from: every qualifying
/// release, whatever its channel.
pub fn rollback_releases(releases: Vec<GithubRelease>) -> (r: Vec<GithubRelease>)
    ensures
        releases_view(r@) == spec_qualifying(releases_view(releases@)),
{
    let ghost full = releases_view(releases@);
    let mut out: Vec<GithubRelease> = Vec::new();
    let len = releases.len();
    let mut i: usize = 0;
    proof {
        assert(full.skip(0) =~= full);
        assert(releases_view(out@) + spec_qualifying(full.skip(0)) =~= spec_qualifying(full));
    }
    while i < len
        invariant
            i <= len,
            len == releases@.len(),
            full == releases_view(releases@),
            releases_view(out@) + spec_qualifying(full.skip(i as int)) == spec_qualifying(full),
        decreases len - i,
    {
        proof {
            assert(full.skip(i as int).drop_first() =~= full.skip(i as int + 1));
            assert(full.skip(i as int)[0] == full[i as int]);
            assert(full[i as int] == releases@[i as int]@);
        }
        if release_qualifies(&releases[i]) {
            let c = releases[i].clone();
            let ghost pre = out@;
            out.push(c);
            proof {
                assert(releases_view(out@) =~= releases_view(pre).push(releases@[i as int]@));
                assert(releases_view(out@) + spec_qualifying(full.skip(i as int + 1))
                    =~= releases_view(pre) + (seq![full[i as int]] + spec_qualifying(
                    full.skip(i as int + 1),
                )));
            }
        }
        i = i + 1;
    }
    proof {
        assert(full.skip(len as int) =~= Seq::<ReleaseView>::empty());
        assert(releases_view(out@) + spec_qualifying(full.skip(len as int)) =~= releases_view(
            out@,
        ));
    }
    out
}

/// Whether a qualifying release belongs to the channel.
pub open spec fn on_channel(r: ReleaseView, channel: UpdateChannel) -> bool {
    qualifies(r) && (match channel {
        UpdateChannel::Main => !r.prerelease,
        UpdateChannel::Dev => r.prerelease,
    })
}

/// The channel's releases, in order.
pub open spec fn spec_channel_releases(rs: Seq<ReleaseView>, channel: UpdateChannel) -> Seq<
    ReleaseView,
>
    decreases rs.len(),
{
    if rs.len() == 0 {
        Seq::empty()
    } else {
        (if on_channel(rs[0], channel) {
            seq![rs[0]]
        } else {
            Seq::empty()
        }) + spec_channel_releases(rs.drop_first(), channel)
    }
}

/// The qualifying releases of one channel: stable releases for `Main`,
/// pre-releases for `Dev`.
pub fn releases_for_channel(releases: Vec<GithubRelease>, channel: &UpdateChannel) -> (r: Vec<
    GithubRelease,
>)
    ensures
        releases_view(r@) == spec_channel_releases(releases_view(releases@), *channel),
{
    let ghost full = releases_view(releases@);
    let ghost ch = *channel;
    let mut out: Vec<GithubRelease> = Vec::new();
    let len = releases.len();
    let mut i: usize = 0;
    proof {
        assert(full.skip(0) =~= full);
        assert(releases_view(out@) + spec_channel_releases(full.skip(0), ch)
            =~= spec_channel_releases(full, ch));
    }
    while i < len
        invariant
            i <= len,
            len == releases@.len(),
            full == releases_view(releases@),
            ch == *channel,
            releases_view(out@) + spec_channel_releases(full.skip(i as int), ch)
                == spec_channel_releases(full, ch),
        decreases len - i,
    {
        proof {
            assert(full.skip(i as int).drop_first() =~= full.skip(i as int + 1));
            assert(full.skip(i as int)[0] == full[i as int]);
            assert(full[i as int] == releases@[i as int]@);
        }
        let keep = if release_qualifies(&releases[i]) {
            match channel {
                UpdateChannel::Main => !releases[i].prerelease,
                UpdateChannel::Dev => releases[i].prerelease,
            }
        } else {
            false
        };
        if keep {
            let c = releases[i].clone();
            let ghost pre = out@;
            out.push(c);
            proof {
                assert(releases_view(out@) =~= releases_view(pre).push(releases@[i as int]@));
                assert(releases_view(out@) + spec_channel_releases(full.skip(i as int + 1), ch)
                    =~= releases_view(pre) + (seq![full[i as int]] + spec_channel_releases(
                    full.skip(i as int + 1),
                    ch,
                )));
            }
        }
        i = i + 1;
    }
    proof {
        assert(full.skip(len as int) =~= Seq::<ReleaseView>::empty());
        assert(releases_view(out@) + spec_channel_releases(full.skip(len as int), ch)
            =~= releases_view(out@));
    }
    out
}

/// The channel's short name.
pub fn channel_name(channel: &UpdateChannel) -> (r: &'static str)
    ensures
        match channel {
            UpdateChannel::Main => r@ == "main"@,
            UpdateChannel::Dev => r@ == "dev"@,
        },
{
    match channel {
        UpdateChannel::Main => "main",
        UpdateChannel::Dev => "dev",
    }
}

/// The tag text without leading `v` characters.
pub open spec fn strip_v(s: Seq<char>) -> Seq<char>
    decreases s.len(),
{
    if s.len() > 0 && s[0] == 'v' {
        strip_v(s.drop_first())
    } else {
        s
    }
}

fn strip_v_chars(v: &Vec<char>) -> (r: Vec<char>)
    ensures
        r@ == strip_v(v@),
{
    let len = v.len();
    proof {
        assert(v@.subrange(0, len as int) =~= v@);
    }
    let mut lo: usize = 0;
    while lo < len && v[lo] == 'v'
        invariant
            lo <= len,
            len == v@.len(),
            strip_v(v@) == strip_v(v@.subrange(lo as int, len as int)),
        decreases len - lo,
    {
        proof {
            let s = v@.subrange(lo as int, len as int);
            assert(s.drop_first() =~= v@.subrange(lo as int + 1, len as int));
        }
        lo = lo + 1;
    }
    proof {
        let s = v@.subrange(lo as int, len as int);
        assert(strip_v(s) == s);
    }
    let mut out: Vec<char> = Vec::new();
    let mut i: usize = lo;
    while i < len
        invariant
            lo <= i <= len,
            len == v@.len(),
            out@ =~= v@.subrange(lo as int, i as int),
        decreases len - i,
    {
        out.push(v[i]);
        proof {
            assert(out@ =~= v@.subrange(lo as int, i as int + 1));
        }
        i = i + 1;
    }
    proof {
        assert(out@ =~= v@.subrange(lo as int, len as int));
    }
    out
}

/// Whether two tags denote the same release: equal once trimmed, or equal
/// once leading `v`s are stripped.
pub open spec fn spec_tags_match(a: Seq<char>, b: Seq<char>) -> bool {
    spec_trim(a) == spec_trim(b) || strip_v(a) == strip_v(b)
}

pub fn tags_match(a: &str, b: &str) -> (r: bool)
    ensures
        r == spec_tags_match(a@, b@),
{
    let ca = str_to_chars(a);
    let cb = str_to_chars(b);
    let ta = trim_chars(&ca);
    let tb = trim_chars(&cb);
    if chars_eq(&ta, &tb) {
        return true;
    }
    let sa = strip_v_chars(&ca);
    let sb = strip_v_chars(&cb);
    chars_eq(&sa, &sb)
}

/// Whether `release_tag` counts as an update over `current_tag` on this
/// channel: a strictly greater version, or — on the dev channel — the first
/// pre-release of the very version the user runs as a stable build.
pub open spec fn spec_is_newer(t: Seq<char>, cur: Seq<char>, channel: UpdateChannel) -> bool {
    match (version_key(t), version_key(cur)) {
        (Some(k), Some(c)) => semver_cmp(t, cur) > 0 || (channel == UpdateChannel::Dev && k.0
            == c.0 && k.1 == c.1 && k.2 == c.2 && c.3.len() == 0 && k.3.len() > 0),
        _ => false,
    }
}

pub fn is_newer_release(release_tag: &str, current_tag: &str, channel: &UpdateChannel) -> (r:
    bool)
    ensures
        r == spec_is_newer(release_tag@, current_tag@, *channel),
{
    let k = match normalize_version(release_tag) {
        None => {
            return false;
        },
        Some(k) => k,
    };
    let c = match normalize_version(current_tag) {
        None => {
            return false;
        },
        Some(c) => c,
    };
    if compare_tag_versions(release_tag, current_tag) > 0 {
        return true;
    }
    matches!(channel, UpdateChannel::Dev) && k.major == c.major && k.minor == c.minor && k.patch
        == c.patch && c.pre.as_str().is_empty() && !k.pre.as_str().is_empty()
}

/// The machine architectures an installer may target.
#[derive(Clone, Copy, PartialEq, Eq, Structural, Debug)]
pub enum Arch {
    X86_64,
    Aarch64,
    Other,
}

/// Whether a lowercased installer name targets the architecture.
pub open spec fn arch_match_name(lower: Seq<char>, arch: Arch) -> bool {
    match arch {
        Arch::X86_64 => contains_seq(lower, "x86_64"@) || contains_seq(lower, "x64"@)
            || contains_seq(lower, "amd64"@),
        Arch::Aarch64 => contains_seq(lower, "aarch64"@) || contains_seq(lower, "arm64"@),
        Arch::Other => false,
    }
}

/// Whether the asset at `i` is an installer for the architecture.
pub open spec fn arch_installer_at(assets: Seq<AssetView>, i: int, arch: Arch) -> bool {
    installer_at(assets, i) && arch_match_name(lower_of(assets[i].name), arch)
}

fn asset_matches_arch(asset: &GithubAsset, arch: &Arch) -> (r: bool)
    ensures
        r == arch_match_name(lower_of(asset@.name), *arch),
{
    let lower = lowercase(asset.name.as_str());
    let cs = str_to_chars(lower.as_str());
    match arch {
        Arch::X86_64 => contains_chars(&cs, "x86_64") || contains_chars(&cs, "x64")
            || contains_chars(&cs, "amd64"),
        Arch::Aarch64 => contains_chars(&cs, "aarch64") || contains_chars(&cs, "arm64"),
        Arch::Other => false,
    }
}

/// Pick the installer asset for this architecture: the first installer
/// whose name names the architecture, else the first installer of any kind.
pub fn pick_installer_asset(assets: &Vec<GithubAsset>, arch: &Arch) -> (r: Option<GithubAsset>)
    ensures
        r is None ==> forall|i: int|
            0 <= i < assets@.len() ==> !#[trigger] installer_at(assets_view(assets@), i),
        r matches Some(a) ==> exists|i: int|
            0 <= i < assets@.len() && a@ == assets_view(assets@)[i] && #[trigger] installer_at(
                assets_view(assets@),
                i,
            ) && ((arch_installer_at(assets_view(assets@), i, *arch) && forall|j: int|
                0 <= j < i ==> !#[trigger] arch_installer_at(assets_view(assets@), j, *arch)) || (
            (forall|j: int|
                0 <= j < assets@.len() ==> !#[trigger] arch_installer_at(
                    assets_view(assets@),
                    j,
                    *arch,
                )) && forall|j: int|
                0 <= j < i ==> !#[trigger] installer_at(assets_view(assets@), j))),
{
    let ghost av = assets_view(assets@);
    let len = assets.len();
    let mut i: usize = 0;
    while i < len
        invariant
            i <= len,
            len == assets@.len(),
            av == assets_view(assets@),
            forall|j: int| 0 <= j < i ==> !#[trigger] arch_installer_at(av, j, *arch),
        decreases len - i,
    {
        proof {
            assert(av[i as int] == assets@[i as int]@);
        }
        if asset_is_installer(&assets[i]) && asset_matches_arch(&assets[i], arch) {
            proof {
                assert(arch_installer_at(av, i as int, *arch));
                assert(installer_at(av, i as int));
            }
            return Some(assets[i].clone());
        }
        i = i + 1;
    }
    let mut k: usize = 0;
    while k < len
        invariant
            k <= len,
            len == assets@.len(),
            av == assets_view(assets@),
            forall|j: int| 0 <= j < av.len() ==> !#[trigger] arch_installer_at(av, j, *arch),
            forall|j: int| 0 <= j < k ==> !#[trigger] installer_at(av, j),
        decreases len - k,
    {
        proof {
            assert(av[k as int] == assets@[k as int]@);
        }
        if asset_is_installer(&assets[k]) {
            proof {
                assert(installer_at(av, k as int));
            }
            return Some(assets[k].clone());
        }
        k = k + 1;
    }
    None
}

/// The list entry a release is shown as: its tag, its name (the tag when it
/// carries none), its publication time.
pub fn release_version_entry(release: &GithubRelease) -> (r: ReleaseVersion)
    ensures
        r.tag@ == release@.tag_name,
        r.name@ == (match release@.name {
            Some(n) => n,
            None => release@.tag_name,
        }),
        (match (r.published_at, release@.published_at) {
            (Some(a), Some(b)) => a@ == b,
            (None, None) => true,
            _ => false,
        }),
{
    ReleaseVersion {
        tag: release.tag_name.clone(),
        name: match &release.name {
            Some(n) => n.clone(),
            None => release.tag_name.clone(),
        },
        published_at: match &release.published_at {
            Some(p) => Some(p.clone()),
            None => None,
        },
    }
}


/// The extension of a plain file name: the text after its last dot, when a
/// dot stands past the first character (`None` otherwise, as for a name
/// with no dot or only a leading one).
pub open spec fn spec_extension(s: Seq<char>) -> Option<Seq<char>>
    decreases s.len(),
{
    if s.len() <= 1 {
        None
    } else if s.last() == '.' {
        Some(Seq::empty())
    } else {
        match spec_extension(s.drop_last()) {
            Some(e) => Some(e.push(s.last())),
            None => None,
        }
    }
}

fn extension_chars(v: &Vec<char>) -> (r: Option<Vec<char>>)
    ensures
        match r {
            Some(e) => spec_extension(v@) == Some(e@),
            None => spec_extension(v@) is None,
        },
{
    let len = v.len();
    let mut j: usize = len;
    proof {
        assert(v@.subrange(0, len as int) =~= v@);
        assert(v@.subrange(len as int, len as int) =~= Seq::<char>::empty());
    }
    while j > 1 && v[j - 1] != '.'
        invariant
            j <= len,
            len == v@.len(),
            j < len ==> j >= 1,
            spec_extension(v@) == (match spec_extension(v@.subrange(0, j as int)) {
                Some(e) => Some(e + v@.subrange(j as int, len as int)),
                None => None::<Seq<char>>,
            }),
        decreases j,
    {
        proof {
            let s = v@.subrange(0, j as int);
            assert(s.drop_last() =~= v@.subrange(0, j as int - 1));
            assert(s.last() == v@[j as int - 1]);
            if spec_extension(s.drop_last()) is Some {
                let e = spec_extension(s.drop_last())->0;
                assert(e.push(s.last()) + v@.subrange(j as int, len as int) =~= e + v@.subrange(
                    j as int - 1,
                    len as int,
                ));
            }
        }
        j = j - 1;
    }
    if j <= 1 {
        proof {
            let s = v@.subrange(0, j as int);
            assert(s.len() <= 1);
        }
        return None;
    }
    proof {
        let s = v@.subrange(0, j as int);
        assert(s.last() == v@[j as int - 1]);
        assert(spec_extension(s) == Some(Seq::<char>::empty()));
    }
    let mut e: Vec<char> = Vec::new();
    let mut i: usize = j;
    while i < len
        invariant
            j <= i <= len,
            len == v@.len(),
            e@ =~= v@.subrange(j as int, i as int),
        decreases len - i,
    {
        e.push(v[i]);
        proof {
            assert(e@ =~= v@.subrange(j as int, i as int + 1));
        }
        i = i + 1;
    }
    proof {
        assert(e@ =~= v@.subrange(j as int, len as int));
        assert(Seq::<char>::empty() + v@.subrange(j as int, len as int) =~= e@);
    }
    Some(e)
}

/// The tag with path separators made safe for a file name.
pub open spec fn slashes_dashed(s: Seq<char>) -> Seq<char> {
    s.map_values(|c: char| if c == '/' { '-' } else { c })
}

/// The file name an installer asset is saved under: the product name, the
/// tag (slashes dashed), and the asset's extension (`exe` when the asset
/// name has none).
pub fn installer_file_name(tag: &str, asset_name: &str) -> (r: String)
    ensures
        r@ == "LockPilot-"@ + slashes_dashed(tag@) + "."@ + (match spec_extension(asset_name@) {
            Some(e) => e,
            None => "exe"@,
        }),
{
    let mut out = str_to_chars("LockPilot-");
    let ghost head = out@;
    let tagc = str_to_chars(tag);
    let tlen = tagc.len();
    let mut i: usize = 0;
    while i < tlen
        invariant
            i <= tlen,
            tlen == tagc@.len(),
            head == "LockPilot-"@,
            tagc@ == tag@,
            out@ =~= head + slashes_dashed(tag@).subrange(0, i as int),
        decreases tlen - i,
    {
        let c = tagc[i];
        if c == '/' {
            out.push('-');
        } else {
            out.push(c);
        }
        proof {
            assert(out@ =~= head + slashes_dashed(tag@).subrange(0, i as int + 1));
        }
        i = i + 1;
    }
    proof {
        assert(slashes_dashed(tag@).subrange(0, tlen as int) =~= slashes_dashed(tag@));
    }
    out.push('.');
    let ghost mid = out@;
    let ac = str_to_chars(asset_name);
    let ext = extension_chars(&ac);
    let extc = match ext {
        Some(e) => e,
        None => str_to_chars("exe"),
    };
    let elen = extc.len();
    let mut k: usize = 0;
    while k < elen
        invariant
            k <= elen,
            elen == extc@.len(),
            out@ =~= mid + extc@.subrange(0, k as int),
        decreases elen - k,
    {
        out.push(extc[k]);
        proof {
            assert(out@ =~= mid + extc@.subrange(0, k as int + 1));
        }
        k = k + 1;
    }
    proof {
        reveal_strlit(".");
        assert("."@ =~= seq!['.']);
        assert(extc@.subrange(0, elen as int) =~= extc@);
        assert(out@ =~= "LockPilot-"@ + slashes_dashed(tag@) + "."@ + extc@);
    }
    chars_to_string(&out)
}

} // verus!
