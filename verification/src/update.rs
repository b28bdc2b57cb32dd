//! Updates from GitHub releases: what a release offers this build, how the
//! running binary was installed, and which steps an install takes.
//!
//! Trust rests on HTTPS and GitHub's integrity. The SHA256 sidecars catch
//! bit-rot; they do not defend against a compromised account.

use vstd::prelude::*;

use crate::decimal;
use crate::path;
use crate::text;
use crate::version;
use crate::version::Version;

verus! {

/// The address that describes the latest release.
pub const GITHUB_API_URL: &'static str =
    "https://api.github.com/repos/cortexuvula/lindiction/releases/latest";

/// Details of an available release that the running daemon is behind.
#[derive(Debug)]
pub struct UpdateInfo {
    pub current: Version,
    pub latest: Version,
    pub tag_name: String,
    pub html_url: String,
    pub deb_url: String,
    /// Absent on old releases, which published no checksum for the `.deb`.
    pub deb_sha256_url: Option<String>,
    pub tarball_url: String,
    pub tarball_sha256_url: String,
}

/// What an [`UpdateInfo`] says.
#[verifier::ext_equal]
pub struct UpdateFacts {
    pub current: version::VersionParts,
    pub latest: version::VersionParts,
    pub tag_name: Seq<char>,
    pub html_url: Seq<char>,
    pub deb_url: Seq<char>,
    pub deb_sha256_url: Option<Seq<char>>,
    pub tarball_url: Seq<char>,
    pub tarball_sha256_url: Seq<char>,
}

impl View for UpdateInfo {
    type V = UpdateFacts;

    open spec fn view(&self) -> UpdateFacts {
        UpdateFacts {
            current: self.current@,
            latest: self.latest@,
            tag_name: self.tag_name@,
            html_url: self.html_url@,
            deb_url: self.deb_url@,
            deb_sha256_url: text::held(self.deb_sha256_url),
            tarball_url: self.tarball_url@,
            tarball_sha256_url: self.tarball_sha256_url@,
        }
    }
}

impl Clone for UpdateInfo {
    fn clone(&self) -> (r: Self)
        ensures
            r@ == self@,
    {
        UpdateInfo {
            current: self.current.clone(),
            latest: self.latest.clone(),
            tag_name: self.tag_name.clone(),
            html_url: self.html_url.clone(),
            deb_url: self.deb_url.clone(),
            deb_sha256_url: match &self.deb_sha256_url {
                Some(url) => Some(url.clone()),
                None => None,
            },
            tarball_url: self.tarball_url.clone(),
            tarball_sha256_url: self.tarball_sha256_url.clone(),
        }
    }
}

/// How the running binary was installed.
#[derive(Debug, Clone, Copy, PartialEq, Eq)]
pub enum InstallMethod {
    /// Under `/usr/` or `/opt/`: needs root to overwrite.
    Deb,
    /// In one of the user's own `bin` directories.
    Tarball,
    /// Anywhere else: never updated automatically.
    DevBuild,
}

/// A release, as far as updating reads it.
#[derive(Debug)]
pub struct GithubRelease {
    pub tag_name: String,
    pub html_url: String,
    pub assets: Vec<GithubAsset>,
}

/// One file attached to a release.
#[derive(Debug)]
pub struct GithubAsset {
    pub name: String,
    pub browser_download_url: String,
}

/// Why there is no update to offer or to install.
#[derive(Debug)]
pub enum UpdateError {
    /// The running version is no version.
    BadCurrent { detail: String },
    /// The release's tag is no version.
    BadTag { tag: String, detail: String },
    /// The release has no `.deb` for this build.
    MissingDeb { tag: String, backend: String, suffix: String },
    /// The release has no tarball for this build.
    MissingTarball { tag: String, backend: String, suffix: String },
    /// The release has no checksum for the tarball of this build.
    MissingTarballSum { tag: String, backend: String },
    /// An address names no file.
    NoFileName { url: String },
    /// The address of the `.deb` names no file.
    NoDebName { url: String },
    /// The address of the tarball names no file.
    NoTarballName { url: String },
    /// The running binary is a development build.
    DevBuild,
    /// A download failed.
    FetchFailed { url: String, status: String },
    /// A checksum does not match.
    SumMismatch { sums: String },
    /// The package manager failed.
    InstallFailed { status: String },
    /// The tarball could not be unpacked.
    UnpackFailed { status: String },
    /// The tarball holds no binary.
    NoBinary,
}

impl UpdateError {
    /// The message for this error.
    pub open spec fn text(self) -> Seq<char> {
        match self {
            UpdateError::BadCurrent { detail } => "parsing current package version: "@ + detail@,
            UpdateError::BadTag { tag, detail } => "parsing latest tag `"@ + tag@ + "`: "@
                + detail@,
            UpdateError::MissingDeb { tag, backend, suffix } => "release "@ + tag@
                + " is missing a .deb asset for backend `"@ + backend@ + "` (looked for suffix `"@
                + suffix@ + "`)"@,
            UpdateError::MissingTarball { tag, backend, suffix } => "release "@ + tag@
                + " is missing a tarball asset for backend `"@ + backend@
                + "` (looked for suffix `"@ + suffix@ + "`)"@,
            UpdateError::MissingTarballSum { tag, backend } => "release "@ + tag@
                + " is missing a tarball SHA256 sidecar for backend `"@ + backend@ + "`"@,
            UpdateError::NoFileName { url } => "url has no filename component: "@ + url@,
            UpdateError::NoDebName { url } =>
                "could not derive .deb filename from deb_url: url has no filename component: "@
                + url@,
            UpdateError::NoTarballName { url } =>
                "could not derive tarball filename from tarball_url: url has no filename component: "@
                + url@,
            UpdateError::DevBuild =>
                "running a development build; auto-update is refused. Rebuild from git, or install from the .deb on the release page."@,
            UpdateError::FetchFailed { url, status } => "curl failed downloading "@ + url@
                + ": exit "@ + status@,
            UpdateError::SumMismatch { sums } => "SHA256 mismatch on "@ + sums@
                + "; refusing to install"@,
            UpdateError::InstallFailed { status } => "pkexec apt install exited with "@ + status@
                + " — dialog denied, apt lock held, or dependency conflict"@,
            UpdateError::UnpackFailed { status } => "tar exited with "@ + status@,
            UpdateError::NoBinary => "tarball did not contain a top-level `lindiction` binary"@,
        }
    }

    /// The message for this error.
    pub fn message(&self) -> (r: String)
        ensures
            r@ == self.text(),
    {
        match self {
            UpdateError::BadCurrent { detail } => text::concat2(
                "parsing current package version: ",
                detail.as_str(),
            ),
            UpdateError::BadTag { tag, detail } => {
                let mut out: String = "parsing latest tag `".to_owned();
                out.append(tag.as_str());
                out.append("`: ");
                out.append(detail.as_str());
                out
            },
            UpdateError::MissingDeb { tag, backend, suffix } => {
                let mut out: String = "release ".to_owned();
                out.append(tag.as_str());
                out.append(" is missing a .deb asset for backend `");
                out.append(backend.as_str());
                out.append("` (looked for suffix `");
                out.append(suffix.as_str());
                out.append("`)");
                out
            },
            UpdateError::MissingTarball { tag, backend, suffix } => {
                let mut out: String = "release ".to_owned();
                out.append(tag.as_str());
                out.append(" is missing a tarball asset for backend `");
                out.append(backend.as_str());
                out.append("` (looked for suffix `");
                out.append(suffix.as_str());
                out.append("`)");
                out
            },
            UpdateError::MissingTarballSum { tag, backend } => {
                let mut out: String = "release ".to_owned();
                out.append(tag.as_str());
                out.append(" is missing a tarball SHA256 sidecar for backend `");
                out.append(backend.as_str());
                out.append("`");
                out
            },
            UpdateError::NoFileName { url } => text::concat2(
                "url has no filename component: ",
                url.as_str(),
            ),
            UpdateError::NoDebName { url } => text::concat2(
                "could not derive .deb filename from deb_url: url has no filename component: ",
                url.as_str(),
            ),
            UpdateError::NoTarballName { url } => text::concat2(
                "could not derive tarball filename from tarball_url: url has no filename component: ",
                url.as_str(),
            ),
            UpdateError::DevBuild =>
                "running a development build; auto-update is refused. Rebuild from git, or install from the .deb on the release page.".to_owned(),
            UpdateError::FetchFailed { url, status } => {
                let mut out: String = "curl failed downloading ".to_owned();
                out.append(url.as_str());
                out.append(": exit ");
                out.append(status.as_str());
                out
            },
            UpdateError::SumMismatch { sums } => text::concat3(
                "SHA256 mismatch on ",
                sums.as_str(),
                "; refusing to install",
            ),
            UpdateError::InstallFailed { status } => text::concat3(
                "pkexec apt install exited with ",
                status.as_str(),
                " — dialog denied, apt lock held, or dependency conflict",
            ),
            UpdateError::UnpackFailed { status } => text::concat2(
                "tar exited with ",
                status.as_str(),
            ),
            UpdateError::NoBinary =>
                "tarball did not contain a top-level `lindiction` binary".to_owned(),
        }
    }
}

// ---------------------------------------------------------------------------
// How the binary was installed
// ---------------------------------------------------------------------------

/// Whether `exe` lies in one of the `bin` directories of `home`.
pub open spec fn in_user_bin(exe: Seq<char>, home: Seq<char>) -> bool {
    ||| (home + "/.cargo/bin/"@).is_prefix_of(exe)
    ||| (home + "/.local/bin/"@).is_prefix_of(exe)
    ||| (home + "/bin/"@).is_prefix_of(exe)
}

/// The install method that the path of the binary shows.
pub open spec fn method_for(exe: Seq<char>, home: Option<Seq<char>>) -> InstallMethod {
    if "/usr/"@.is_prefix_of(exe) || "/opt/"@.is_prefix_of(exe) {
        InstallMethod::Deb
    } else if home.is_some() && in_user_bin(exe, home.unwrap()) {
        InstallMethod::Tarball
    } else {
        InstallMethod::DevBuild
    }
}

/// The install method of the binary at `exe`, for the user whose home
/// directory is `home`.
pub fn detect_install_method_for(exe: &str, home: Option<&str>) -> (r: InstallMethod)
    ensures
        r == method_for(exe@, text::seen(home)),
{
    if text::starts_with(exe, "/usr/") || text::starts_with(exe, "/opt/") {
        return InstallMethod::Deb;
    }
    match home {
        Some(home) => {
            let cargo_bin = text::concat2(home, "/.cargo/bin/");
            let local_bin = text::concat2(home, "/.local/bin/");
            let own_bin = text::concat2(home, "/bin/");
            if text::starts_with(exe, cargo_bin.as_str()) || text::starts_with(
                exe,
                local_bin.as_str(),
            ) || text::starts_with(exe, own_bin.as_str()) {
                InstallMethod::Tarball
            } else {
                InstallMethod::DevBuild
            }
        },
        None => InstallMethod::DevBuild,
    }
}

/// The install method of the running binary. Where its path is unknown the
/// answer is `DevBuild`: better to refuse than to update the wrong file.
pub fn detect_install_method(exe: Option<&str>, home: Option<&str>) -> (r: InstallMethod)
    ensures
        r == match exe {
            Some(exe) => method_for(exe@, text::seen(home)),
            None => InstallMethod::DevBuild,
        },
{
    match exe {
        Some(exe) => detect_install_method_for(exe, home),
        None => InstallMethod::DevBuild,
    }
}

// ---------------------------------------------------------------------------
// Asset names
// ---------------------------------------------------------------------------

/// The place of the last `.` in `s`, or -1.
pub open spec fn last_dot(s: Seq<char>) -> int
    decreases s.len(),
{
    if s.len() == 0 {
        -1
    } else if s.last() == '.' {
        s.len() - 1
    } else {
        last_dot(s.drop_last())
    }
}

/// Where the extension of `base`, whose last `.` is at `dot`, starts: there, or
/// where `.tar` stands before it, as in `.tar.gz`, at that.
pub open spec fn extension_at(base: Seq<char>, dot: int) -> int {
    if ".tar"@.is_suffix_of(base.take(dot)) {
        dot - ".tar"@.len()
    } else {
        dot
    }
}

/// The asset suffix of a build for `backend`: the plain one for the CPU, else
/// with the backend before the extension.
pub open spec fn suffix_for(base: Seq<char>, backend: Seq<char>) -> Seq<char> {
    let dot = last_dot(base);
    if backend == "cpu"@ || dot < 0 {
        base
    } else {
        let cut = extension_at(base, dot);
        base.take(cut) + "-"@ + backend + base.skip(cut)
    }
}

/// Build the asset suffix for a daemon compiled for `backend`.
pub fn pick_suffix(base_suffix: &str, backend: &str) -> (r: String)
    ensures
        r@ == suffix_for(base_suffix@, backend@),
{
    if text::same(backend, "cpu") {
        return base_suffix.to_owned();
    }
    let chars = text::chars_of(base_suffix);
    let n: usize = chars.len();
    let mut dot: usize = n;
    assert(chars@.take(n as int) == chars@);
    while dot > 0 && chars[dot - 1] != '.'
        invariant
            dot <= n == chars@.len(),
            last_dot(chars@) == last_dot(chars@.take(dot as int)),
        decreases dot,
    {
        assert(chars@.take(dot as int).drop_last() == chars@.take(dot - 1));
        dot = dot - 1;
    }
    if dot == 0 {
        return base_suffix.to_owned();
    }
    let ghost at = dot - 1;
    assert(last_dot(chars@) == at);
    let stem: String = text::piece(&chars, 0, dot - 1);
    assert(chars@.subrange(0, at) == chars@.take(at));
    let cut: usize = if text::ends_with(stem.as_str(), ".tar") {
        proof {
            reveal_strlit(".tar");
        }
        dot - 5
    } else {
        dot - 1
    };
    let mut out: String = text::piece(&chars, 0, cut);
    out.append("-");
    out.append(backend);
    let ext: String = text::piece(&chars, cut, n);
    out.append(ext.as_str());
    assert(chars@.subrange(0, cut as int) == chars@.take(cut as int));
    assert(chars@.subrange(cut as int, n as int) == chars@.skip(cut as int));
    out
}

/// `url` up to its query string or fragment.
pub open spec fn without_query(url: Seq<char>) -> Seq<char>
    decreases url.len(),
{
    if url.len() == 0 || url[0] == '?' || url[0] == '#' {
        Seq::empty()
    } else {
        seq![url[0]] + without_query(url.drop_first())
    }
}

/// What follows the last `/` of `p`, or all of it where it has none.
pub open spec fn last_segment(p: Seq<char>) -> Seq<char>
    decreases p.len(),
{
    if p.len() == 0 || p.last() == '/' {
        Seq::empty()
    } else {
        last_segment(p.drop_last()).push(p.last())
    }
}

/// The file name at the end of an address.
pub open spec fn url_name(url: Seq<char>) -> Seq<char> {
    last_segment(without_query(url))
}

/// The file name at the end of `url`, if it names a file.
///
/// A checksum sidecar holds the name of the file it was made for, so a
/// download is saved under exactly that name.
pub fn basename_from_url(url: &str) -> (r: Result<String, UpdateError>)
    ensures
        match r {
            Ok(name) => name@ == url_name(url@) && name@.len() > 0,
            Err(e) => url_name(url@).len() == 0 && (e matches UpdateError::NoFileName { url: u }
                && u@ == url@),
        },
{
    let chars = text::chars_of(url);
    let n: usize = chars.len();
    let mut end: usize = 0;
    assert(chars@.skip(0) == chars@);
    assert(chars@.take(0) + without_query(chars@) == without_query(chars@));
    while end < n && chars[end] != '?' && chars[end] != '#'
        invariant
            end <= n == chars@.len(),
            without_query(chars@) == chars@.take(end as int) + without_query(
                chars@.skip(end as int),
            ),
        decreases n - end,
    {
        assert(chars@.skip(end as int).drop_first() == chars@.skip(end + 1));
        assert(chars@.take(end + 1) == chars@.take(end as int).push(chars@[end as int]));
        assert(chars@.take(end as int) + (seq![chars@[end as int]] + without_query(
            chars@.skip(end + 1),
        )) == chars@.take(end + 1) + without_query(chars@.skip(end + 1)));
        end = end + 1;
    }
    assert(without_query(chars@.skip(end as int)) == Seq::<char>::empty());
    assert(without_query(chars@) == chars@.take(end as int));
    let mut start: usize = end;
    while start > 0 && chars[start - 1] != '/'
        invariant
            start <= end <= n == chars@.len(),
            last_segment(chars@.take(end as int)) == last_segment(chars@.take(start as int))
                + chars@.subrange(start as int, end as int),
        decreases start,
    {
        assert(chars@.take(start as int).drop_last() == chars@.take(start - 1));
        assert(last_segment(chars@.take(start as int)) == last_segment(
            chars@.take(start - 1),
        ).push(chars@[start - 1]));
        assert(last_segment(chars@.take(start - 1)).push(chars@[start - 1]) + chars@.subrange(
            start as int,
            end as int,
        ) == last_segment(chars@.take(start - 1)) + chars@.subrange(start - 1, end as int));
        start = start - 1;
    }
    assert(last_segment(chars@.take(start as int)) == Seq::<char>::empty());
    assert(url_name(url@) == chars@.subrange(start as int, end as int));
    if start == end {
        Err(UpdateError::NoFileName { url: url.to_owned() })
    } else {
        Ok(text::piece(&chars, start, end))
    }
}

// ---------------------------------------------------------------------------
// What a release offers
// ---------------------------------------------------------------------------

/// Whether an asset called `name` is the file itself with the given suffix,
/// and not its checksum.
pub open spec fn is_primary(name: Seq<char>, suffix: Seq<char>) -> bool {
    suffix.is_suffix_of(name) && !".sha256"@.is_suffix_of(name)
}

/// The address of the first asset that is a file with the given suffix.
pub open spec fn primary_url(assets: Seq<GithubAsset>, suffix: Seq<char>) -> Option<Seq<char>>
    decreases assets.len(),
{
    if assets.len() == 0 {
        None
    } else if is_primary(assets[0].name@, suffix) {
        Some(assets[0].browser_download_url@)
    } else {
        primary_url(assets.drop_first(), suffix)
    }
}

/// The address of the first asset that is the checksum of a file with the
/// given suffix.
pub open spec fn sum_url(assets: Seq<GithubAsset>, suffix: Seq<char>) -> Option<Seq<char>>
    decreases assets.len(),
{
    if assets.len() == 0 {
        None
    } else if (suffix + ".sha256"@).is_suffix_of(assets[0].name@) {
        Some(assets[0].browser_download_url@)
    } else {
        sum_url(assets.drop_first(), suffix)
    }
}

/// `s` without its leading `v`s.
pub open spec fn without_v(s: Seq<char>) -> Seq<char>
    decreases s.len(),
{
    if s.len() > 0 && s[0] == 'v' {
        without_v(s.drop_first())
    } else {
        s
    }
}

/// The suffix of the `.deb` for `backend`.
pub open spec fn deb_suffix(backend: Seq<char>) -> Seq<char> {
    suffix_for("-amd64.deb"@, backend)
}

/// The suffix of the tarball for `backend`.
pub open spec fn tarball_suffix(backend: Seq<char>) -> Seq<char> {
    suffix_for("-x86_64-linux.tar.gz"@, backend)
}

/// Whether `r` is the answer of a release that is newer than the running
/// build: its four assets, or the first of them that is missing.
pub open spec fn offers(
    r: Result<UpdateInfo, UpdateError>,
    current: version::VersionParts,
    latest: version::VersionParts,
    release: GithubRelease,
    backend: Seq<char>,
) -> bool {
    let tag = release.tag_name@;
    let deb = primary_url(release.assets@, deb_suffix(backend));
    let tarball = primary_url(release.assets@, tarball_suffix(backend));
    let sum = sum_url(release.assets@, tarball_suffix(backend));
    if deb is None {
        r matches Err(UpdateError::MissingDeb { tag: t, backend: b, suffix: s }) && t@ == tag && b@
            == backend && s@ == deb_suffix(backend)
    } else if tarball is None {
        r matches Err(UpdateError::MissingTarball { tag: t, backend: b, suffix: s }) && t@ == tag
            && b@ == backend && s@ == tarball_suffix(backend)
    } else if sum is None {
        r matches Err(UpdateError::MissingTarballSum { tag: t, backend: b }) && t@ == tag && b@
            == backend
    } else {
        &&& r is Ok
        &&& r->Ok_0.current@ == current
        &&& r->Ok_0.latest@ == latest
        &&& r->Ok_0.tag_name@ == tag
        &&& r->Ok_0.html_url@ == release.html_url@
        &&& r->Ok_0.deb_url@ == deb->0
        &&& text::held(r->Ok_0.deb_sha256_url) == sum_url(release.assets@, deb_suffix(backend))
        &&& r->Ok_0.tarball_url@ == tarball->0
        &&& r->Ok_0.tarball_sha256_url@ == sum->0
    }
}

/// Whether `r` is the answer to a release that was read as `latest`, where
/// `not_newer` says whether that is at most the running version.
pub open spec fn answers(
    r: Result<Option<UpdateInfo>, UpdateError>,
    current: version::VersionParts,
    latest: version::VersionParts,
    not_newer: bool,
    release: GithubRelease,
    backend: Seq<char>,
) -> bool {
    if not_newer {
        r matches Ok(None)
    } else {
        match r {
            Ok(Some(info)) => offers(Ok(info), current, latest, release, backend),
            Ok(None) => false,
            Err(e) => offers(Err(e), current, latest, release, backend),
        }
    }
}

/// Whether `r` is the answer to `release` for a build of version `current`.
pub open spec fn verdict(
    r: Result<Option<UpdateInfo>, UpdateError>,
    current: version::VersionParts,
    release: GithubRelease,
    backend: Seq<char>,
) -> bool {
    match version::version_of(without_v(release.tag_name@)) {
        Ok(latest) => answers(
            r,
            current,
            latest,
            version::version_at_most(latest, current),
            release,
            backend,
        ),
        Err(why) => r matches Err(UpdateError::BadTag { tag, detail }) && tag@
            == release.tag_name@ && detail@ == why,
    }
}

/// Whether `r` agrees with what the version numbers alone decide: dotted
/// numerals are never a bad tag, the running version and older ones are no
/// update, and a release with larger numbers is never passed over.
pub open spec fn numbers_decide(
    r: Result<Option<UpdateInfo>, UpdateError>,
    current: version::VersionParts,
    release: GithubRelease,
) -> bool {
    let got = version::version_of(without_v(release.tag_name@));
    &&& version::release_is_read(without_v(release.tag_name@), got)
    &&& got matches Ok(latest) ==> {
        &&& latest == current || version::triple_before(latest, current) ==> (r matches Ok(None))
        &&& version::triple_before(current, latest) ==> !(r matches Ok(None))
    }
}

/// The address of the first asset that is a file with the given suffix.
fn find_primary(assets: &Vec<GithubAsset>, suffix: &str) -> (r: Option<String>)
    ensures
        text::held(r) == primary_url(assets@, suffix@),
{
    assert(assets@.skip(0) == assets@);
    for i in 0..assets.len()
        invariant
            primary_url(assets@, suffix@) == primary_url(assets@.skip(i as int), suffix@),
    {
        assert(assets@.skip(i as int).drop_first() == assets@.skip(i + 1));
        let name: &str = assets[i].name.as_str();
        if text::ends_with(name, suffix) && !text::ends_with(name, ".sha256") {
            return Some(assets[i].browser_download_url.clone());
        }
    }
    None
}

/// The address of the first asset that is the checksum of a file with the
/// given suffix.
fn find_sum(assets: &Vec<GithubAsset>, suffix: &str) -> (r: Option<String>)
    ensures
        text::held(r) == sum_url(assets@, suffix@),
{
    let wanted = text::concat2(suffix, ".sha256");
    assert(assets@.skip(0) == assets@);
    for i in 0..assets.len()
        invariant
            wanted@ == suffix@ + ".sha256"@,
            sum_url(assets@, suffix@) == sum_url(assets@.skip(i as int), suffix@),
    {
        assert(assets@.skip(i as int).drop_first() == assets@.skip(i + 1));
        if text::ends_with(assets[i].name.as_str(), wanted.as_str()) {
            return Some(assets[i].browser_download_url.clone());
        }
    }
    None
}

/// Collect what a newer release offers a build for `backend`.
pub fn collect_assets(
    current: Version,
    latest: Version,
    release: GithubRelease,
    backend: &str,
) -> (r: Result<UpdateInfo, UpdateError>)
    ensures
        offers(r, current@, latest@, release, backend@),
{
    let deb_end = pick_suffix("-amd64.deb", backend);
    let tarball_end = pick_suffix("-x86_64-linux.tar.gz", backend);
    let deb_sum = find_sum(&release.assets, deb_end.as_str());
    let deb = match find_primary(&release.assets, deb_end.as_str()) {
        Some(url) => url,
        None => {
            return Err(
                UpdateError::MissingDeb {
                    tag: release.tag_name,
                    backend: backend.to_owned(),
                    suffix: deb_end,
                },
            );
        },
    };
    let tarball = match find_primary(&release.assets, tarball_end.as_str()) {
        Some(url) => url,
        None => {
            return Err(
                UpdateError::MissingTarball {
                    tag: release.tag_name,
                    backend: backend.to_owned(),
                    suffix: tarball_end,
                },
            );
        },
    };
    let tarball_sum = match find_sum(&release.assets, tarball_end.as_str()) {
        Some(url) => url,
        None => {
            return Err(
                UpdateError::MissingTarballSum {
                    tag: release.tag_name,
                    backend: backend.to_owned(),
                },
            );
        },
    };
    Ok(
        UpdateInfo {
            current,
            latest,
            tag_name: release.tag_name,
            html_url: release.html_url,
            deb_url: deb,
            deb_sha256_url: deb_sum,
            tarball_url: tarball,
            tarball_sha256_url: tarball_sum,
        },
    )
}

/// Decide on a release that was read as `latest`, where `not_newer` says
/// whether that is at most the running version.
pub fn decide_update(
    current: Version,
    latest: Version,
    not_newer: bool,
    release: GithubRelease,
    backend: &str,
) -> (r: Result<Option<UpdateInfo>, UpdateError>)
    ensures
        answers(r, current@, latest@, not_newer, release, backend@),
{
    if not_newer {
        return Ok(None);
    }
    match collect_assets(current, latest, release, backend) {
        Ok(info) => Ok(Some(info)),
        Err(e) => Err(e),
    }
}

/// Compare `release` with the running version, for a build for `backend`.
pub fn build_update_info_for(
    current: Version,
    release: GithubRelease,
    backend: &str,
) -> (r: Result<Option<UpdateInfo>, UpdateError>)
    ensures
        verdict(r, current@, release, backend@),
        numbers_decide(r, current@, release),
{
    let chars = text::chars_of(release.tag_name.as_str());
    let n: usize = chars.len();
    let mut i: usize = 0;
    assert(chars@.skip(0) == chars@);
    while i < n && chars[i] == 'v'
        invariant
            i <= n == chars@.len(),
            without_v(chars@) == without_v(chars@.skip(i as int)),
        decreases n - i,
    {
        assert(chars@.skip(i as int).drop_first() == chars@.skip(i + 1));
        i = i + 1;
    }
    let number = text::piece(&chars, i, n);
    assert(number@ == chars@.skip(i as int));
    match Version::parse(number.as_str()) {
        Ok(latest) => {
            let not_newer = latest.at_most(&current);
            decide_update(current, latest, not_newer, release, backend)
        },
        Err(detail) => Err(UpdateError::BadTag { tag: release.tag_name, detail }),
    }
}

/// Compare `release` with the running version, for this build.
pub fn build_update_info(current: Version, release: GithubRelease) -> (r: Result<
    Option<UpdateInfo>,
    UpdateError,
>)
    ensures
        verdict(r, current@, release, crate::COMPILED_BACKEND@),
        numbers_decide(r, current@, release),
{
    build_update_info_for(current, release, crate::COMPILED_BACKEND)
}

/// Compare the latest release with the version `current` of this build.
///
/// `Ok(None)` means that this build is current, or newer than what has been
/// released.
pub fn check(current: &str, release: GithubRelease) -> (r: Result<Option<UpdateInfo>, UpdateError>)
    ensures
        match version::version_of(current@) {
            Ok(v) => verdict(r, v, release, crate::COMPILED_BACKEND@) && numbers_decide(
                r,
                v,
                release,
            ),
            Err(why) => r matches Err(UpdateError::BadCurrent { detail }) && detail@ == why,
        },
        version::release_is_read(current@, version::version_of(current@)),
{
    match Version::parse(current) {
        Ok(v) => build_update_info(v, release),
        Err(detail) => Err(UpdateError::BadCurrent { detail }),
    }
}

// ---------------------------------------------------------------------------
// Install steps
// ---------------------------------------------------------------------------

/// One step of an install. Where a step fails, the ones after it are not taken.
#[derive(Debug)]
pub enum InstallStep {
    /// Download `url` to the path `dest`.
    Fetch { url: String, dest: String },
    /// Verify the checksum in the file `sums`, from the directory it lies in.
    Verify { sums: String },
    /// Run `pkexec` with these arguments.
    Escalate { args: Vec<String> },
    /// Run `tar` with these arguments.
    Unpack { args: Vec<String> },
    /// Put the file at `binary` into the place of the running binary.
    Replace { binary: String },
}

/// A step by what it does.
#[verifier::ext_equal]
pub enum InstallDeed {
    Fetch(Seq<char>, Seq<char>),
    Verify(Seq<char>),
    Escalate(Seq<Seq<char>>),
    Unpack(Seq<Seq<char>>),
    Replace(Seq<char>),
}

impl View for InstallStep {
    type V = InstallDeed;

    open spec fn view(&self) -> InstallDeed {
        match *self {
            InstallStep::Fetch { url, dest } => InstallDeed::Fetch(url@, dest@),
            InstallStep::Verify { sums } => InstallDeed::Verify(sums@),
            InstallStep::Escalate { args } => InstallDeed::Escalate(text::texts(args@)),
            InstallStep::Unpack { args } => InstallDeed::Unpack(text::texts(args@)),
            InstallStep::Replace { binary } => InstallDeed::Replace(binary@),
        }
    }
}

/// Steps by what they do.
pub open spec fn deeds(steps: Seq<InstallStep>) -> Seq<InstallDeed> {
    steps.map_values(|s: InstallStep| s@)
}

/// What an install from the `.deb` takes, by way of the directory `tmp`: fetch
/// it, fetch and verify its checksum where there is one, and have it installed.
pub open spec fn deb_deeds(info: UpdateFacts, tmp: Seq<char>) -> Seq<InstallDeed> {
    let name = url_name(info.deb_url);
    let sums = name + ".sha256"@;
    let fetch = InstallDeed::Fetch(info.deb_url, path::joined(tmp, name));
    let run = InstallDeed::Escalate(seq!["apt"@, "install"@, "-y"@, path::joined(tmp, name)]);
    match info.deb_sha256_url {
        Some(url) => seq![
            fetch,
            InstallDeed::Fetch(url, path::joined(tmp, sums)),
            InstallDeed::Verify(sums),
            run,
        ],
        None => seq![fetch, run],
    }
}

/// What an install from the tarball takes, by way of the directory `tmp`: fetch
/// it, fetch and verify its checksum, unpack it, and put the binary into place.
pub open spec fn tarball_deeds(info: UpdateFacts, tmp: Seq<char>) -> Seq<InstallDeed> {
    let name = url_name(info.tarball_url);
    let sums = name + ".sha256"@;
    seq![
        InstallDeed::Fetch(info.tarball_url, path::joined(tmp, name)),
        InstallDeed::Fetch(info.tarball_sha256_url, path::joined(tmp, sums)),
        InstallDeed::Verify(sums),
        InstallDeed::Unpack(seq!["-xzf"@, path::joined(tmp, name), "-C"@, tmp]),
        InstallDeed::Replace(path::joined(tmp, "lindiction"@)),
    ]
}

impl InstallStep {
    /// Judge how a step ended; `status` says how its command exited. For the
    /// last step of a tarball, `success` says whether the binary is there.
    pub fn finish(&self, success: bool, status: &str) -> (r: Result<(), UpdateError>)
        ensures
            match r {
                Ok(_) => success,
                Err(e) => !success && match *self {
                    InstallStep::Fetch { url, dest } =>
                        e matches UpdateError::FetchFailed { url: u, status: s } && u@ == url@
                        && s@ == status@,
                    InstallStep::Verify { sums } =>
                        e matches UpdateError::SumMismatch { sums: n } && n@ == sums@,
                    InstallStep::Escalate { args } =>
                        e matches UpdateError::InstallFailed { status: s } && s@ == status@,
                    InstallStep::Unpack { args } =>
                        e matches UpdateError::UnpackFailed { status: s } && s@ == status@,
                    InstallStep::Replace { binary } => e is NoBinary,
                },
            },
    {
        if success {
            return Ok(());
        }
        let status: String = status.to_owned();
        Err(
            match self {
                InstallStep::Fetch { url, dest: _ } => UpdateError::FetchFailed {
                    url: url.clone(),
                    status,
                },
                InstallStep::Verify { sums } => UpdateError::SumMismatch { sums: sums.clone() },
                InstallStep::Escalate { args: _ } => UpdateError::InstallFailed { status },
                InstallStep::Unpack { args: _ } => UpdateError::UnpackFailed { status },
                InstallStep::Replace { binary: _ } => UpdateError::NoBinary,
            },
        )
    }
}

/// Plan an install from the `.deb`, by way of the directory `tmp`.
///
/// Downloads keep the file names of their addresses, because the checksum
/// holds the name of the file it was made for.
pub fn install_deb(info: &UpdateInfo, tmp: &str) -> (r: Result<Vec<InstallStep>, UpdateError>)
    ensures
        match r {
            Ok(steps) => url_name(info.deb_url@).len() > 0 && deeds(steps@) == deb_deeds(
                info@,
                tmp@,
            ),
            Err(e) => url_name(info.deb_url@).len() == 0 && (e matches UpdateError::NoDebName { url }
                && url@ == info.deb_url@),
        },
{
    let name = match basename_from_url(info.deb_url.as_str()) {
        Ok(name) => name,
        Err(_) => {
            return Err(UpdateError::NoDebName { url: info.deb_url.clone() });
        },
    };
    let dest = path::join(tmp, name.as_str());
    let args: Vec<String> = vec![
        "apt".to_owned(),
        "install".to_owned(),
        "-y".to_owned(),
        dest.clone(),
    ];
    assert(text::texts(args@) =~= seq!["apt"@, "install"@, "-y"@, dest@]);
    let mut steps: Vec<InstallStep> = Vec::new();
    steps.push(InstallStep::Fetch { url: info.deb_url.clone(), dest });
    match &info.deb_sha256_url {
        Some(url) => {
            let sums = text::concat2(name.as_str(), ".sha256");
            let dest = path::join(tmp, sums.as_str());
            steps.push(InstallStep::Fetch { url: url.clone(), dest });
            steps.push(InstallStep::Verify { sums });
        },
        None => {},
    }
    steps.push(InstallStep::Escalate { args });
    assert(deeds(steps@) =~= deb_deeds(info@, tmp@));
    Ok(steps)
}

/// Plan an install from the tarball, by way of the directory `tmp`.
pub fn install_tarball(info: &UpdateInfo, tmp: &str) -> (r: Result<Vec<InstallStep>, UpdateError>)
    ensures
        match r {
            Ok(steps) => url_name(info.tarball_url@).len() > 0 && deeds(steps@) == tarball_deeds(
                info@,
                tmp@,
            ),
            Err(e) => url_name(info.tarball_url@).len() == 0 && (
            e matches UpdateError::NoTarballName { url } && url@ == info.tarball_url@),
        },
{
    let name = match basename_from_url(info.tarball_url.as_str()) {
        Ok(name) => name,
        Err(_) => {
            return Err(UpdateError::NoTarballName { url: info.tarball_url.clone() });
        },
    };
    let dest = path::join(tmp, name.as_str());
    let args: Vec<String> = vec![
        "-xzf".to_owned(),
        dest.clone(),
        "-C".to_owned(),
        tmp.to_owned(),
    ];
    assert(text::texts(args@) =~= seq!["-xzf"@, dest@, "-C"@, tmp@]);
    let sums = text::concat2(name.as_str(), ".sha256");
    let sums_dest = path::join(tmp, sums.as_str());
    let mut steps: Vec<InstallStep> = Vec::new();
    steps.push(InstallStep::Fetch { url: info.tarball_url.clone(), dest });
    steps.push(InstallStep::Fetch { url: info.tarball_sha256_url.clone(), dest: sums_dest });
    steps.push(InstallStep::Verify { sums });
    steps.push(InstallStep::Unpack { args });
    steps.push(InstallStep::Replace { binary: path::join(tmp, "lindiction") });
    assert(deeds(steps@) =~= tarball_deeds(info@, tmp@));
    Ok(steps)
}

/// Plan the install of `info` over a binary that was installed by `method`.
/// After it succeeds the process should be restarted.
pub fn install(info: &UpdateInfo, method: InstallMethod, tmp: &str) -> (r: Result<
    Vec<InstallStep>,
    UpdateError,
>)
    ensures
        match method {
            InstallMethod::DevBuild => r matches Err(UpdateError::DevBuild),
            InstallMethod::Deb => match r {
                Ok(steps) => url_name(info.deb_url@).len() > 0 && deeds(steps@) == deb_deeds(
                    info@,
                    tmp@,
                ),
                Err(e) => url_name(info.deb_url@).len() == 0 && (
                e matches UpdateError::NoDebName { url } && url@ == info.deb_url@),
            },
            InstallMethod::Tarball => match r {
                Ok(steps) => url_name(info.tarball_url@).len() > 0 && deeds(steps@)
                    == tarball_deeds(info@, tmp@),
                Err(e) => url_name(info.tarball_url@).len() == 0 && (
                e matches UpdateError::NoTarballName { url } && url@ == info.tarball_url@),
            },
        },
{
    match method {
        InstallMethod::DevBuild => Err(UpdateError::DevBuild),
        InstallMethod::Deb => install_deb(info, tmp),
        InstallMethod::Tarball => install_tarball(info, tmp),
    }
}

/// How the daemon of this version introduces itself to GitHub.
pub fn user_agent(version: &str) -> (r: String)
    ensures
        r@ == "lindiction/"@ + version@,
{
    text::concat2("lindiction/", version)
}

/// The header that carries the user agent.
fn user_agent_header(version: &str) -> (r: String)
    ensures
        r@ == "User-Agent: "@ + ("lindiction/"@ + version@),
{
    text::concat2("User-Agent: ", user_agent(version).as_str())
}

/// The arguments of `curl` that ask for the latest release.
pub fn release_query_args(version: &str) -> (r: Vec<String>)
    ensures
        text::texts(r@) == seq![
            "--silent"@,
            "--show-error"@,
            "--fail"@,
            "--location"@,
            "--max-time"@,
            "15"@,
            "-H"@,
            "User-Agent: "@ + ("lindiction/"@ + version@),
            "-H"@,
            "Accept: application/vnd.github+json"@,
            GITHUB_API_URL@,
        ],
{
    let header = user_agent_header(version);
    let args: Vec<String> = vec![
        "--silent".to_owned(),
        "--show-error".to_owned(),
        "--fail".to_owned(),
        "--location".to_owned(),
        "--max-time".to_owned(),
        "15".to_owned(),
        "-H".to_owned(),
        header,
        "-H".to_owned(),
        "Accept: application/vnd.github+json".to_owned(),
        GITHUB_API_URL.to_owned(),
    ];
    args
}

/// The arguments of `curl` that download `url` to the path `dest`.
pub fn download_args(version: &str, url: &str, dest: &str) -> (r: Vec<String>)
    ensures
        text::texts(r@) == seq![
            "-L"@,
            "--fail"@,
            "--silent"@,
            "--show-error"@,
            "--max-time"@,
            "300"@,
            "-H"@,
            "User-Agent: "@ + ("lindiction/"@ + version@),
            "-o"@,
            dest@,
            url@,
        ],
{
    let header = user_agent_header(version);
    let args: Vec<String> = vec![
        "-L".to_owned(),
        "--fail".to_owned(),
        "--silent".to_owned(),
        "--show-error".to_owned(),
        "--max-time".to_owned(),
        "300".to_owned(),
        "-H".to_owned(),
        header,
        "-o".to_owned(),
        dest.to_owned(),
        url.to_owned(),
    ];
    args
}

/// The directory for the downloads of the process `pid`.
pub fn download_dir(temp: &str, pid: u32) -> (r: String)
    ensures
        r@ == path::joined(temp@, "lindiction-update-"@ + decimal::numeral(pid as nat)),
{
    let mut name: String = "lindiction-update-".to_owned();
    decimal::push_numeral(&mut name, pid as u64);
    path::join(temp, name.as_str())
}

/// Where the process `pid` stages the new binary: beside the old one, in the
/// directory `parent`, so that one rename puts it into place.
pub fn staging_path(parent: &str, pid: u32) -> (r: String)
    ensures
        r@ == path::joined(
            parent@,
            ".lindiction-update-"@ + decimal::numeral(pid as nat) + ".tmp"@,
        ),
{
    let mut name: String = ".lindiction-update-".to_owned();
    decimal::push_numeral(&mut name, pid as u64);
    name.append(".tmp");
    path::join(parent, name.as_str())
}

// ---------------------------------------------------------------------------
// Laws
// ---------------------------------------------------------------------------

/// Whether `s` holds none of the characters that end a file name in an
/// address.
pub open spec fn is_plain_name(s: Seq<char>) -> bool {
    forall|i: int| 0 <= i < s.len() ==> #[trigger] s[i] != '/' && s[i] != '?' && s[i] != '#'
}

/// Whether `s` holds neither a query string nor a fragment.
pub open spec fn has_no_query(s: Seq<char>) -> bool {
    forall|i: int| 0 <= i < s.len() ==> #[trigger] s[i] != '?' && s[i] != '#'
}

/// What is left holds neither query string nor fragment.
proof fn cut_has_no_query(s: Seq<char>)
    ensures
        has_no_query(without_query(s)),
    decreases s.len(),
{
    if s.len() > 0 {
        cut_has_no_query(s.drop_first());
    }
}

/// A last segment holds no slash, and none but characters of its path.
proof fn segment_is_plain(p: Seq<char>)
    requires
        has_no_query(p),
    ensures
        is_plain_name(last_segment(p)),
    decreases p.len(),
{
    if p.len() > 0 {
        segment_is_plain(p.drop_last());
    }
}

/// The last segment of a directory, a slash and a name is the name.
proof fn segment_after_slash(dir: Seq<char>, name: Seq<char>)
    requires
        is_plain_name(name),
    ensures
        last_segment(dir + "/"@ + name) == name,
    decreases name.len(),
{
    reveal_strlit("/");
    let all = dir + "/"@ + name;
    if name.len() == 0 {
        assert(all.last() == '/');
        assert(last_segment(all) == name);
    } else {
        segment_after_slash(dir, name.drop_last());
        assert(all.drop_last() == dir + "/"@ + name.drop_last());
        assert(all.last() == name.last());
        assert(name.drop_last().push(name.last()) == name);
    }
}

/// The local file name of a download is the asset's own name: for an address
/// made of a directory, a slash and a name, with or without a query string.
pub proof fn download_keeps_asset_name(dir: Seq<char>, name: Seq<char>, query: Seq<char>)
    requires
        has_no_query(dir),
        is_plain_name(name),
        query.len() == 0 || query[0] == '?' || query[0] == '#',
    ensures
        url_name(dir + "/"@ + name + query) == name,
{
    reveal_strlit("/");
    let front = dir + "/"@ + name;
    assert(has_no_query(front));
    front_is_kept(front, query);
    segment_after_slash(dir, name);
}

/// A query string or fragment is cut off, and nothing before it.
proof fn front_is_kept(front: Seq<char>, query: Seq<char>)
    requires
        has_no_query(front),
        query.len() == 0 || query[0] == '?' || query[0] == '#',
    ensures
        without_query(front + query) == front,
    decreases front.len(),
{
    if front.len() == 0 {
        assert(front + query == query);
        assert(without_query(query) == front);
    } else {
        assert((front + query).drop_first() == front.drop_first() + query);
        assert forall|i: int|
            0 <= i < front.drop_first().len() implies #[trigger] front.drop_first()[i] != '?'
            && front.drop_first()[i] != '#' by {
            assert(front.drop_first()[i] == front[i + 1]);
        }
        front_is_kept(front.drop_first(), query);
        assert(seq![front[0]] + front.drop_first() == front);
    }
}

/// A file name taken from an address is a single component of a path: it holds
/// no slash.
pub proof fn download_name_is_plain(url: Seq<char>)
    ensures
        is_plain_name(url_name(url)),
{
    cut_has_no_query(url);
    segment_is_plain(without_query(url));
}

/// Whether the step is one that changes what is installed.
pub open spec fn installs(deed: InstallDeed) -> bool {
    deed is Escalate || deed is Unpack || deed is Replace
}

/// Nothing is installed, nor even unpacked, before its checksum was verified:
/// always for a tarball, and for a `.deb` of a release that has one. What is
/// verified is the file that was fetched, by the checksum that was fetched.
pub proof fn checksums_come_first(info: UpdateFacts, tmp: Seq<char>, i: int)
    ensures
        0 <= i < tarball_deeds(info, tmp).len() && installs(tarball_deeds(info, tmp)[i]) ==> {
            let name = url_name(info.tarball_url);
            &&& i > 2
            &&& tarball_deeds(info, tmp)[0] == InstallDeed::Fetch(
                info.tarball_url,
                path::joined(tmp, name),
            )
            &&& tarball_deeds(info, tmp)[1] == InstallDeed::Fetch(
                info.tarball_sha256_url,
                path::joined(tmp, name + ".sha256"@),
            )
            &&& tarball_deeds(info, tmp)[2] == InstallDeed::Verify(name + ".sha256"@)
        },
        info.deb_sha256_url is Some && 0 <= i < deb_deeds(info, tmp).len() && installs(
            deb_deeds(info, tmp)[i],
        ) ==> {
            let name = url_name(info.deb_url);
            &&& i > 2
            &&& deb_deeds(info, tmp)[0] == InstallDeed::Fetch(
                info.deb_url,
                path::joined(tmp, name),
            )
            &&& deb_deeds(info, tmp)[1] == InstallDeed::Fetch(
                info.deb_sha256_url->0,
                path::joined(tmp, name + ".sha256"@),
            )
            &&& deb_deeds(info, tmp)[2] == InstallDeed::Verify(name + ".sha256"@)
        },
{
}

/// A CPU build looks for the plain asset names.
pub proof fn cpu_suffixes_are_plain()
    ensures
        deb_suffix("cpu"@) == "-amd64.deb"@,
        tarball_suffix("cpu"@) == "-x86_64-linux.tar.gz"@,
{
}

/// Whether `backend` is one of the GPU backends.
pub open spec fn is_gpu_backend(backend: Seq<char>) -> bool {
    backend == "cuda"@ || backend == "vulkan"@ || backend == "hipblas"@
}

/// The suffix of a GPU build's `.deb`, and of its tarball, written out.
pub proof fn gpu_suffixes(backend: Seq<char>)
    requires
        is_gpu_backend(backend),
    ensures
        deb_suffix(backend) == "-amd64-"@ + backend + ".deb"@,
        tarball_suffix(backend) == "-x86_64-linux-"@ + backend + ".tar.gz"@,
{
    reveal_strlit("cpu");
    reveal_strlit("cuda");
    reveal_strlit("vulkan");
    reveal_strlit("hipblas");
    reveal_strlit("-");
    reveal_strlit(".deb");
    reveal_strlit(".tar");
    reveal_strlit(".tar.gz");
    reveal_strlit("-amd64.deb");
    reveal_strlit("-amd64-");
    reveal_strlit("-x86_64-linux.tar.gz");
    reveal_strlit("-x86_64-linux-");
    assert(backend != "cpu"@) by {
        assert(backend.len() != 3);
    }
    let d = "-amd64.deb"@;
    reveal_with_fuel(last_dot, 5);
    assert(last_dot(d) == 6);
    assert(!".tar"@.is_suffix_of(d.take(6))) by {
        assert(d.take(6).subrange(2, 6)[0] == 'm');
    }
    assert(d.take(6) + "-"@ =~= "-amd64-"@);
    assert(d.skip(6) =~= ".deb"@);
    let t = "-x86_64-linux.tar.gz"@;
    assert(last_dot(t) == 17);
    assert(".tar"@.is_suffix_of(t.take(17))) by {
        assert(t.take(17).subrange(13, 17) =~= ".tar"@);
    }
    assert(t.take(13) + "-"@ =~= "-x86_64-linux-"@);
    assert(t.skip(13) =~= ".tar.gz"@);
}

/// Whether `backend` is one that a daemon can be compiled for.
pub open spec fn is_backend(backend: Seq<char>) -> bool {
    backend == "cpu"@ || is_gpu_backend(backend)
}

/// What tells the backends' suffixes apart: the character before the extension.
proof fn suffix_marks(backend: Seq<char>)
    requires
        is_backend(backend),
    ensures
        ({
            let d = deb_suffix(backend);
            let t = tarball_suffix(backend);
            &&& d.len() >= 5
            &&& t.len() >= 8
            &&& d[d.len() - 5] == if backend == "cpu"@ {
                '4'
            } else {
                backend.last()
            }
            &&& t[t.len() - 8] == if backend == "cpu"@ {
                'x'
            } else {
                backend.last()
            }
        }),
{
    reveal_strlit("cpu");
    reveal_strlit("cuda");
    reveal_strlit("vulkan");
    reveal_strlit("hipblas");
    reveal_strlit(".deb");
    reveal_strlit(".tar.gz");
    reveal_strlit("-amd64.deb");
    reveal_strlit("-amd64-");
    reveal_strlit("-x86_64-linux.tar.gz");
    reveal_strlit("-x86_64-linux-");
    if backend == "cpu"@ {
        cpu_suffixes_are_plain();
        assert("-amd64.deb"@[5] == '4');
        assert("-x86_64-linux.tar.gz"@[12] == 'x');
    } else {
        gpu_suffixes(backend);
    }
}

/// A build never takes the artifact of another backend's build: no asset name
/// carries the suffixes of two backends.
pub proof fn backends_never_mix(name: Seq<char>, one: Seq<char>, other: Seq<char>)
    requires
        is_backend(one),
        is_backend(other),
        one != other,
    ensures
        !(deb_suffix(one).is_suffix_of(name) && deb_suffix(other).is_suffix_of(name)),
        !(tarball_suffix(one).is_suffix_of(name) && tarball_suffix(other).is_suffix_of(name)),
{
    suffix_marks(one);
    suffix_marks(other);
    reveal_strlit("cuda");
    reveal_strlit("vulkan");
    reveal_strlit("hipblas");
    let n = name.len() as int;
    let d1 = deb_suffix(one);
    let d2 = deb_suffix(other);
    if d1.is_suffix_of(name) && d2.is_suffix_of(name) {
        assert(name.subrange(n - d1.len(), n)[d1.len() - 5] == name[n - 5]);
        assert(name.subrange(n - d2.len(), n)[d2.len() - 5] == name[n - 5]);
        assert(false);
    }
    let t1 = tarball_suffix(one);
    let t2 = tarball_suffix(other);
    if t1.is_suffix_of(name) && t2.is_suffix_of(name) {
        assert(name.subrange(n - t1.len(), n)[t1.len() - 8] == name[n - 8]);
        assert(name.subrange(n - t2.len(), n)[t2.len() - 8] == name[n - 8]);
        assert(false);
    }
}

/// Where a binary lies tells how it was installed: under `/usr/` or `/opt/` by the
/// package manager, whoever runs it; in one of the user's own `bin` directories from
/// the tarball; and nowhere else by either.
pub proof fn places_tell_the_method(rest: Seq<char>, home: Seq<char>, exe: Seq<char>)
    ensures
        method_for("/usr/"@ + rest, None) is Deb,
        method_for("/usr/"@ + rest, Some(home)) is Deb,
        method_for("/opt/"@ + rest, None) is Deb,
        method_for("/opt/"@ + rest, Some(home)) is Deb,
        !("/usr/"@.is_prefix_of(exe) || "/opt/"@.is_prefix_of(exe)) ==> method_for(exe, None)
            is DevBuild,
        method_for(home + "/.cargo/bin/"@ + rest, Some(home)) is Tarball || method_for(
            home + "/.cargo/bin/"@ + rest,
            None,
        ) is Deb,
        method_for(home + "/.local/bin/"@ + rest, Some(home)) is Tarball || method_for(
            home + "/.local/bin/"@ + rest,
            None,
        ) is Deb,
        method_for(home + "/bin/"@ + rest, Some(home)) is Tarball || method_for(
            home + "/bin/"@ + rest,
            None,
        ) is Deb,
        method_for(exe, Some(home)) is Tarball ==> home.is_prefix_of(exe) && exe.len()
            > home.len() && exe[home.len() as int] == '/',
        method_for(exe, Some(home)) is Deb ==> exe.len() >= 5 && exe[0] == '/' && exe[4] == '/',
{
    reveal_strlit("/usr/");
    reveal_strlit("/opt/");
    reveal_strlit("/.cargo/bin/");
    reveal_strlit("/.local/bin/");
    reveal_strlit("/bin/");
    let usr = "/usr/"@ + rest;
    assert(usr.subrange(0, 5) =~= "/usr/"@);
    let opt = "/opt/"@ + rest;
    assert(opt.subrange(0, 5) =~= "/opt/"@);
    let cargo = home + "/.cargo/bin/"@;
    assert((cargo + rest).subrange(0, cargo.len() as int) =~= cargo);
    let local = home + "/.local/bin/"@;
    assert((local + rest).subrange(0, local.len() as int) =~= local);
    let own = home + "/bin/"@;
    assert((own + rest).subrange(0, own.len() as int) =~= own);
    if method_for(exe, Some(home)) is Tarball {
        let front = if cargo.is_prefix_of(exe) {
            cargo
        } else if local.is_prefix_of(exe) {
            local
        } else {
            own
        };
        assert(front.is_prefix_of(exe));
        let start = exe.subrange(0, front.len() as int);
        assert(start[home.len() as int] == exe[home.len() as int]);
        assert(exe.subrange(0, home.len() as int) =~= home) by {
            assert forall|i: int| 0 <= i < home.len() implies exe[i] == home[i] by {
                assert(start[i] == exe[i]);
            }
        }
    }
    if method_for(exe, Some(home)) is Deb {
        let start = exe.subrange(0, 5);
        assert(start[0] == exe[0] && start[4] == exe[4]);
    }
}

/// A binary whose place is unknown is never updated.
pub proof fn unknown_places_are_left_alone(home: Option<&str>, r: InstallMethod)
    requires
        call_ensures(detect_install_method, (None::<&str>, home), r),
    ensures
        r is DevBuild,
{
}

/// A tag is read without the letters `v` in front of it, and nothing else is taken
/// away: what is left does not start with one, and is the end of the tag.
pub proof fn tags_lose_their_v(tag: Seq<char>)
    ensures
        without_v(seq!['v'] + tag) == without_v(tag),
        tag.len() == 0 || tag[0] != 'v' ==> without_v(tag) == tag,
        without_v(tag).len() > 0 ==> without_v(tag)[0] != 'v',
        without_v(tag).is_suffix_of(tag),
        forall|i: int| 0 <= i < tag.len() - without_v(tag).len() ==> #[trigger] tag[i] == 'v',
    decreases tag.len(),
{
    assert((seq!['v'] + tag).drop_first() =~= tag);
    if tag.len() > 0 && tag[0] == 'v' {
        let rest = tag.drop_first();
        tags_lose_their_v(rest);
        let left = without_v(tag);
        assert(left == without_v(rest));
        assert(rest.subrange(rest.len() - left.len(), rest.len() as int) =~= left);
        assert(tag.subrange(tag.len() - left.len(), tag.len() as int) =~= rest.subrange(
            rest.len() - left.len(),
            rest.len() as int,
        ));
        assert forall|i: int| 0 <= i < tag.len() - left.len() implies #[trigger] tag[i] == 'v' by {
            if i > 0 {
                assert(rest[i - 1] == tag[i]);
            }
        }
    } else {
        assert(tag.subrange(0, tag.len() as int) =~= tag);
    }
}

/// The file of a build is the first asset that ends as it should and is no checksum:
/// it is found wherever there is one, and nothing else is.
pub proof fn the_first_file_is_taken(assets: Seq<GithubAsset>, suffix: Seq<char>, i: int)
    ensures
        0 <= i < assets.len() && suffix.is_suffix_of(assets[i].name@) && !".sha256"@.is_suffix_of(
            assets[i].name@,
        ) && (forall|j: int|
            0 <= j < i ==> !suffix.is_suffix_of((#[trigger] assets[j]).name@)
                || ".sha256"@.is_suffix_of(assets[j].name@)) ==> primary_url(assets, suffix)
            == Some(assets[i].browser_download_url@),
        primary_url(assets, suffix) is None && 0 <= i < assets.len() ==> !suffix.is_suffix_of(
            assets[i].name@,
        ) || ".sha256"@.is_suffix_of(assets[i].name@),
        primary_url(assets, suffix) matches Some(url) ==> exists|k: int|
            0 <= k < assets.len() && (#[trigger] assets[k]).browser_download_url@ == url
                && suffix.is_suffix_of(assets[k].name@) && !".sha256"@.is_suffix_of(
                assets[k].name@,
            ),
    decreases assets.len(),
{
    if assets.len() > 0 && !is_primary(assets[0].name@, suffix) {
        let rest = assets.drop_first();
        the_first_file_is_taken(rest, suffix, i - 1);
        assert forall|j: int| 0 <= j < rest.len() implies #[trigger] rest[j] == assets[j + 1] by {}
        if 0 < i < assets.len() {
            assert(rest[i - 1] == assets[i]);
        }
        if primary_url(assets, suffix) is Some {
            let url = primary_url(assets, suffix)->0;
            let k = choose|k: int|
                0 <= k < rest.len() && (#[trigger] rest[k]).browser_download_url@ == url
                    && suffix.is_suffix_of(rest[k].name@) && !".sha256"@.is_suffix_of(
                    rest[k].name@,
                );
            assert(assets[k + 1] == rest[k]);
        }
    } else if assets.len() > 0 {
        assert(assets[0].browser_download_url@ == primary_url(assets, suffix)->0);
    }
}

/// The checksum of a file is the first asset called like it, with `.sha256` behind.
pub proof fn the_first_checksum_is_taken(assets: Seq<GithubAsset>, suffix: Seq<char>, i: int)
    ensures
        0 <= i < assets.len() && (suffix + ".sha256"@).is_suffix_of(assets[i].name@) && (forall|
            j: int,
        |
            0 <= j < i ==> !(suffix + ".sha256"@).is_suffix_of((#[trigger] assets[j]).name@))
            ==> sum_url(assets, suffix) == Some(assets[i].browser_download_url@),
        sum_url(assets, suffix) is None && 0 <= i < assets.len() ==> !(suffix
            + ".sha256"@).is_suffix_of(assets[i].name@),
        sum_url(assets, suffix) matches Some(url) ==> exists|k: int|
            0 <= k < assets.len() && (#[trigger] assets[k]).browser_download_url@ == url && (suffix
                + ".sha256"@).is_suffix_of(assets[k].name@),
    decreases assets.len(),
{
    if assets.len() > 0 && !(suffix + ".sha256"@).is_suffix_of(assets[0].name@) {
        let rest = assets.drop_first();
        the_first_checksum_is_taken(rest, suffix, i - 1);
        assert forall|j: int| 0 <= j < rest.len() implies #[trigger] rest[j] == assets[j + 1] by {}
        if 0 < i < assets.len() {
            assert(rest[i - 1] == assets[i]);
        }
        if sum_url(assets, suffix) is Some {
            let url = sum_url(assets, suffix)->0;
            let k = choose|k: int|
                0 <= k < rest.len() && (#[trigger] rest[k]).browser_download_url@ == url && (suffix
                    + ".sha256"@).is_suffix_of(rest[k].name@);
            assert(assets[k + 1] == rest[k]);
        }
    } else if assets.len() > 0 {
        assert(assets[0].browser_download_url@ == sum_url(assets, suffix)->0);
    }
}

/// Whether a release holds an asset at the given address whose name ends as given.
pub open spec fn holds(assets: Seq<GithubAsset>, url: Seq<char>, end: Seq<char>) -> bool {
    exists|k: int|
        0 <= k < assets.len() && (#[trigger] assets[k]).browser_download_url@ == url
            && end.is_suffix_of(assets[k].name@)
}

/// What a newer release offers a CPU build: each address is that of an asset of the
/// release, called as its kind of file is called for a CPU build; and the release is
/// passed on as it was.
pub proof fn offers_are_of_the_release(
    current: Version,
    latest: Version,
    release: GithubRelease,
    r: Result<UpdateInfo, UpdateError>,
)
    requires
        call_ensures(collect_assets, (current, latest, release, "cpu"), r),
    ensures
        r matches Ok(info) ==> {
            &&& info.current@ == current@
            &&& info.latest@ == latest@
            &&& info.tag_name@ == release.tag_name@
            &&& info.html_url@ == release.html_url@
            &&& holds(release.assets@, info.deb_url@, "-amd64.deb"@)
            &&& holds(release.assets@, info.tarball_url@, "-x86_64-linux.tar.gz"@)
            &&& holds(
                release.assets@,
                info.tarball_sha256_url@,
                "-x86_64-linux.tar.gz"@ + ".sha256"@,
            )
            &&& info.deb_sha256_url matches Some(url) ==> holds(
                release.assets@,
                url@,
                "-amd64.deb"@ + ".sha256"@,
            )
        },
{
    let assets = release.assets@;
    the_first_file_is_taken(assets, "-amd64.deb"@, 0);
    the_first_file_is_taken(assets, "-x86_64-linux.tar.gz"@, 0);
    the_first_checksum_is_taken(assets, "-amd64.deb"@, 0);
    the_first_checksum_is_taken(assets, "-x86_64-linux.tar.gz"@, 0);
    cpu_suffixes_are_plain();
    assert(offers(r, current@, latest@, release, "cpu"@));
}

/// Taking the backend out of a suffix leaves the plain one, wherever a backend was
/// put in: before the last dot, or before `.tar` where that stands before it.
pub proof fn suffixes_carry_the_backend(
    stem: Seq<char>,
    ext: Seq<char>,
    backend: Seq<char>,
    r: String,
    base: &str,
    named: &str,
)
    requires
        backend != "cpu"@,
        forall|i: int| 0 <= i < ext.len() ==> #[trigger] ext[i] != '.',
        !".tar"@.is_suffix_of(stem),
        call_ensures(pick_suffix, (base, named), r),
        named@ == backend,
    ensures
        base@ == stem.push('.') + ext ==> r@ == stem.push('-') + backend.push('.') + ext,
        base@ == stem + ".tar."@ + ext ==> r@ == stem.push('-') + backend + ".tar."@ + ext,
{
    reveal_strlit("-");
    reveal_strlit(".tar");
    reveal_strlit(".tar.");
    if base@ == stem.push('.') + ext {
        last_dot_stands(stem, ext);
        assert(base@.take(stem.len() as int) =~= stem);
        assert(base@.skip(stem.len() as int) =~= seq!['.'] + ext);
        assert(r@ =~= stem.push('-') + backend.push('.') + ext);
    }
    if base@ == stem + ".tar."@ + ext {
        let long = stem + ".tar"@;
        assert(base@ =~= long.push('.') + ext);
        last_dot_stands(long, ext);
        assert(base@.take(long.len() as int) =~= long);
        assert(long.subrange(long.len() - 4, long.len() as int) =~= ".tar"@);
        assert(base@.take(stem.len() as int) =~= stem);
        assert(base@.skip(stem.len() as int) =~= ".tar."@ + ext);
        assert(r@ =~= stem.push('-') + backend + ".tar."@ + ext);
    }
}

proof fn last_dot_stands(stem: Seq<char>, ext: Seq<char>)
    requires
        forall|i: int| 0 <= i < ext.len() ==> #[trigger] ext[i] != '.',
    ensures
        last_dot(stem.push('.') + ext) == stem.len(),
    decreases ext.len(),
{
    let all = stem.push('.') + ext;
    if ext.len() == 0 {
        assert(all =~= stem.push('.'));
    } else {
        assert(all.last() == ext[ext.len() - 1]);
        assert(all.drop_last() =~= stem.push('.') + ext.drop_last());
        assert forall|i: int| 0 <= i < ext.drop_last().len() implies #[trigger] ext.drop_last()[i]
            != '.' by {
            assert(ext.drop_last()[i] == ext[i]);
        }
        last_dot_stands(stem, ext.drop_last());
    }
}

/// A release that is not newer is no update; any other is one, or lacks a file.
pub proof fn only_newer_releases_count(
    current: Version,
    latest: Version,
    not_newer: bool,
    release: GithubRelease,
    backend: &str,
    r: Result<Option<UpdateInfo>, UpdateError>,
)
    requires
        call_ensures(decide_update, (current, latest, not_newer, release, backend), r),
    ensures
        r matches Ok(None) <==> not_newer,
        r is Err ==> !not_newer,
{
}

/// What an install runs, word for word, over a binary that was installed by the
/// package manager: the package is fetched, checked by its checksum where there is
/// one, and handed to `apt`; and the file that is handed over is the one that was
/// fetched.
pub proof fn packages_are_installed_by_apt(
    info: UpdateInfo,
    tmp: &str,
    r: Result<Vec<InstallStep>, UpdateError>,
)
    requires
        call_ensures(install, (&info, InstallMethod::Deb, tmp), r),
    ensures
        r is Ok <==> url_name(info.deb_url@).len() > 0,
        r matches Ok(steps) ==> {
            let done = deeds(steps@);
            let file = path::joined(tmp@, url_name(info.deb_url@));
            &&& done[0] == InstallDeed::Fetch(info.deb_url@, file)
            &&& done.last() == InstallDeed::Escalate(seq!["apt"@, "install"@, "-y"@, file])
            &&& info.deb_sha256_url is None <==> done.len() == 2
            &&& info.deb_sha256_url is Some <==> done.len() == 4
        },
{
}

/// The same for a binary from the tarball: fetched, checked, unpacked beside it, and
/// the binary from it put into place.
pub proof fn tarballs_are_unpacked(
    info: UpdateInfo,
    tmp: &str,
    r: Result<Vec<InstallStep>, UpdateError>,
)
    requires
        call_ensures(install, (&info, InstallMethod::Tarball, tmp), r),
    ensures
        r is Ok <==> url_name(info.tarball_url@).len() > 0,
        r matches Ok(steps) ==> {
            let done = deeds(steps@);
            let file = path::joined(tmp@, url_name(info.tarball_url@));
            &&& done.len() == 5
            &&& done[0] == InstallDeed::Fetch(info.tarball_url@, file)
            &&& done[3] == InstallDeed::Unpack(seq!["-xzf"@, file, "-C"@, tmp@])
            &&& done[4] == InstallDeed::Replace(path::joined(tmp@, "lindiction"@))
        },
{
}

/// A development build is never updated.
pub proof fn development_builds_are_left_alone(
    info: UpdateInfo,
    tmp: &str,
    r: Result<Vec<InstallStep>, UpdateError>,
)
    requires
        call_ensures(install, (&info, InstallMethod::DevBuild, tmp), r),
    ensures
        r matches Err(UpdateError::DevBuild),
{
}

/// Steps and what they do.
pub proof fn steps_do_what_they_say(url: String, dest: String, args: Vec<String>)
    ensures
        (InstallStep::Fetch { url, dest })@ == InstallDeed::Fetch(url@, dest@),
        (InstallStep::Verify { sums: dest })@ == InstallDeed::Verify(dest@),
        (InstallStep::Escalate { args })@ == InstallDeed::Escalate(text::texts(args@)),
        (InstallStep::Unpack { args })@ == InstallDeed::Unpack(text::texts(args@)),
        (InstallStep::Replace { binary: dest })@ == InstallDeed::Replace(dest@),
{
}

/// A step is done exactly where it succeeded, and a failure is told as what it is.
pub proof fn failed_steps_are_told(
    step: InstallStep,
    success: bool,
    status: &str,
    r: Result<(), UpdateError>,
)
    requires
        call_ensures(InstallStep::finish, (&step, success, status), r),
    ensures
        r is Ok <==> success,
        r matches Err(e) ==> e.text() == match step {
            InstallStep::Fetch { url, dest } => "curl failed downloading "@ + url@ + ": exit "@
                + status@,
            InstallStep::Verify { sums } => "SHA256 mismatch on "@ + sums@
                + "; refusing to install"@,
            InstallStep::Escalate { args } => "pkexec apt install exited with "@ + status@
                + " — dialog denied, apt lock held, or dependency conflict"@,
            InstallStep::Unpack { args } => "tar exited with "@ + status@,
            InstallStep::Replace { binary } =>
                "tarball did not contain a top-level `lindiction` binary"@,
        },
{
}

/// What `curl` is told for a download: the address last, after where to save it; it
/// follows redirections, fails on an error of the server, and says who asks.
pub proof fn downloads_are_asked_for(version: &str, url: &str, dest: &str, r: Vec<String>)
    requires
        call_ensures(download_args, (version, url, dest), r),
    ensures
        r@.len() == 11,
        r@[10]@ == url@,
        r@[9]@ == dest@,
        r@[8]@ == "-o"@,
        r@[7]@ == "User-Agent: lindiction/"@ + version@,
        r@[6]@ == "-H"@,
        r@[5]@ == "300"@,
        r@[4]@ == "--max-time"@,
        r@[1]@ == "--fail"@,
        r@[0]@ == "-L"@,
{
    reveal_strlit("User-Agent: ");
    reveal_strlit("lindiction/");
    reveal_strlit("User-Agent: lindiction/");
    let args = text::texts(r@);
    assert(args.len() == 11);
    assert(args[0] == r@[0]@ && args[1] == r@[1]@ && args[4] == r@[4]@ && args[5] == r@[5]@);
    assert(args[6] == r@[6]@ && args[7] == r@[7]@ && args[8] == r@[8]@ && args[9] == r@[9]@);
    assert(args[10] == r@[10]@);
    assert(r@[7]@ =~= "User-Agent: lindiction/"@ + version@);
}

/// What `curl` is told for the latest release: the address of it last.
pub proof fn releases_are_asked_for(version: &str, r: Vec<String>)
    requires
        call_ensures(release_query_args, (version,), r),
    ensures
        r@.len() == 11,
        r@[10]@ == "https://api.github.com/repos/cortexuvula/lindiction/releases/latest"@,
        r@[9]@ == "Accept: application/vnd.github+json"@,
        r@[8]@ == "-H"@,
        r@[7]@ == "User-Agent: lindiction/"@ + version@,
        r@[6]@ == "-H"@,
        r@[5]@ == "15"@,
        r@[4]@ == "--max-time"@,
        r@[3]@ == "--location"@,
        r@[2]@ == "--fail"@,
{
    reveal_strlit("User-Agent: ");
    reveal_strlit("lindiction/");
    reveal_strlit("User-Agent: lindiction/");
    let args = text::texts(r@);
    assert(args.len() == 11);
    assert(args[2] == r@[2]@ && args[3] == r@[3]@ && args[4] == r@[4]@ && args[5] == r@[5]@);
    assert(args[6] == r@[6]@ && args[7] == r@[7]@ && args[8] == r@[8]@ && args[9] == r@[9]@);
    assert(args[10] == r@[10]@);
    assert(r@[7]@ =~= "User-Agent: lindiction/"@ + version@);
}

/// Two processes never share a directory for their downloads, nor a place for the
/// new binary.
pub proof fn processes_keep_apart(
    dir: &str,
    one: u32,
    other: u32,
    a: String,
    b: String,
    c: String,
    d: String,
)
    requires
        call_ensures(download_dir, (dir, one), a),
        call_ensures(download_dir, (dir, other), b),
        call_ensures(staging_path, (dir, one), c),
        call_ensures(staging_path, (dir, other), d),
        one != other,
    ensures
        a@ != b@,
        c@ != d@,
{
    reveal_strlit("lindiction-update-");
    reveal_strlit(".lindiction-update-");
    reveal_strlit(".tmp");
    decimal::numeral_reads_back(one as nat);
    decimal::numeral_reads_back(other as nat);
    let n = decimal::numeral(one as nat);
    let m = decimal::numeral(other as nat);
    path::joining_adds_one_slash(dir@, "lindiction-update-"@ + n);
    path::joining_adds_one_slash(dir@, "lindiction-update-"@ + m);
    if a@ == b@ {
        assert("lindiction-update-"@ + n + Seq::<char>::empty() =~= "lindiction-update-"@ + n);
        assert("lindiction-update-"@ + m + Seq::<char>::empty() =~= "lindiction-update-"@ + m);
        ends_alike(a@, "lindiction-update-"@, n, m, Seq::empty());
    }
    path::joining_adds_one_slash(dir@, ".lindiction-update-"@ + n + ".tmp"@);
    path::joining_adds_one_slash(dir@, ".lindiction-update-"@ + m + ".tmp"@);
    if c@ == d@ {
        ends_alike(c@, ".lindiction-update-"@, n, m, ".tmp"@);
    }
}

proof fn ends_alike(
    all: Seq<char>,
    front: Seq<char>,
    n: Seq<char>,
    m: Seq<char>,
    back: Seq<char>,
)
    requires
        n.len() == m.len(),
        (front + n + back).is_suffix_of(all),
        (front + m + back).is_suffix_of(all),
    ensures
        n == m,
{
    let x = front + n + back;
    let y = front + m + back;
    assert(x == y);
    assert(x.subrange(front.len() as int, front.len() as int + n.len()) =~= n);
    assert(y.subrange(front.len() as int, front.len() as int + m.len()) =~= m);
}

/// What is said where a release has not what a build needs.
pub proof fn missing_files_are_named(tag: String, backend: String, suffix: String)
    ensures
        (UpdateError::MissingDeb { tag, backend, suffix }).text() == "release "@ + tag@
            + " is missing a .deb asset for backend `"@ + backend@ + "` (looked for suffix `"@
            + suffix@ + "`)"@,
        (UpdateError::MissingTarball { tag, backend, suffix }).text() == "release "@ + tag@
            + " is missing a tarball asset for backend `"@ + backend@ + "` (looked for suffix `"@
            + suffix@ + "`)"@,
        (UpdateError::MissingTarballSum { tag, backend }).text() == "release "@ + tag@
            + " is missing a tarball SHA256 sidecar for backend `"@ + backend@ + "`"@,
        (UpdateError::BadTag { tag, detail: suffix }).text() == "parsing latest tag `"@ + tag@
            + "`: "@ + suffix@,
        (UpdateError::BadCurrent { detail: suffix }).text() == "parsing current package version: "@
            + suffix@,
        (UpdateError::NoFileName { url: tag }).text() == "url has no filename component: "@ + tag@,
{
}

/// Whether a release is an update is decided by its three numbers where they differ
/// from those that run: larger ones are never passed over, and equal or smaller ones
/// never offered; a leading `v` does not matter.
pub proof fn larger_numbers_are_updates(
    current: &str,
    have: (u64, u64, u64),
    release: GithubRelease,
    offered: (u64, u64, u64),
    r: Result<Option<UpdateInfo>, UpdateError>,
)
    requires
        call_ensures(check, (current, release), r),
        current@ == version::dotted(have.0, have.1, have.2),
        release.tag_name@ == version::dotted(offered.0, offered.1, offered.2)
            || release.tag_name@ == seq!['v'] + version::dotted(offered.0, offered.1, offered.2),
    ensures
        !(r matches Err(UpdateError::BadTag { tag, detail })),
        !(r matches Err(UpdateError::BadCurrent { detail })),
        r matches Ok(None) <==> offered.0 < have.0 || offered.0 == have.0 && offered.1 < have.1
            || offered.0 == have.0 && offered.1 == have.1 && offered.2 <= have.2,
        r matches Ok(Some(info)) ==> info.latest@ == version::release(
            offered.0,
            offered.1,
            offered.2,
        ) && info.current@ == version::release(have.0, have.1, have.2),
{
    let number = version::dotted(offered.0, offered.1, offered.2);
    decimal::numeral_reads_back(offered.0 as nat);
    assert(text::is_digit(decimal::numeral(offered.0 as nat)[0]));
    assert(number[0] == decimal::numeral(offered.0 as nat)[0]);
    tags_lose_their_v(number);
    tags_lose_their_v(release.tag_name@);
    assert(without_v(release.tag_name@) == number);
}

/// An update's facts are those that it carries.
pub proof fn facts_are_those_carried(info: UpdateInfo)
    ensures
        info@.current == info.current@,
        info@.latest == info.latest@,
        info@.tag_name == info.tag_name@,
        info@.html_url == info.html_url@,
        info@.deb_url == info.deb_url@,
        info@.deb_sha256_url is Some <==> info.deb_sha256_url is Some,
        info.deb_sha256_url matches Some(url) ==> info@.deb_sha256_url == Some(url@),
        info@.tarball_url == info.tarball_url@,
        info@.tarball_sha256_url == info.tarball_sha256_url@,
{
}

/// What a process puts where: its downloads into a directory of its own, and the new
/// binary into a hidden file beside the old one, both named by its number.
pub proof fn processes_name_their_files(
    dir: &str,
    pid: u32,
    downloads: String,
    staged: String,
    agent: String,
)
    requires
        call_ensures(download_dir, (dir, pid), downloads),
        call_ensures(staging_path, (dir, pid), staged),
        call_ensures(user_agent, (dir,), agent),
        dir@.len() > 0,
        dir@[dir@.len() - 1] != '/',
    ensures
        downloads@ == dir@ + "/lindiction-update-"@ + decimal::numeral(pid as nat),
        staged@ == dir@ + "/.lindiction-update-"@ + decimal::numeral(pid as nat) + ".tmp"@,
        agent@ == "lindiction/"@ + dir@,
{
    reveal_strlit("/");
    reveal_strlit("lindiction-update-");
    reveal_strlit("/lindiction-update-");
    reveal_strlit(".lindiction-update-");
    reveal_strlit("/.lindiction-update-");
    assert("/"@ + "lindiction-update-"@ =~= "/lindiction-update-"@);
    assert("/"@ + ".lindiction-update-"@ =~= "/.lindiction-update-"@);
    assert(downloads@ =~= dir@ + "/lindiction-update-"@ + decimal::numeral(pid as nat));
    assert(staged@ =~= dir@ + "/.lindiction-update-"@ + decimal::numeral(pid as nat) + ".tmp"@);
}

/// The name of a download is the end of its address, or there is none.
pub proof fn names_come_from_addresses(url: &str, r: Result<String, UpdateError>)
    requires
        call_ensures(basename_from_url, (url,), r),
    ensures
        r matches Ok(name) ==> name@.len() > 0 && is_plain_name(name@) && name@ == url_name(url@),
        r is Ok <==> url_name(url@).len() > 0,
        r matches Err(e) ==> e.text() == "url has no filename component: "@ + url@,
{
    download_name_is_plain(url@);
}

/// A suffix without a dot, and any suffix for the CPU, stays as it is.
pub proof fn other_suffixes_stay(base: &str, backend: &str, r: String)
    requires
        call_ensures(pick_suffix, (base, backend), r),
    ensures
        backend@ == "cpu"@ ==> r@ == base@,
        (forall|i: int| 0 <= i < base@.len() ==> #[trigger] base@[i] != '.') ==> r@ == base@,
{
    if forall|i: int| 0 <= i < base@.len() ==> #[trigger] base@[i] != '.' {
        no_dot(base@);
    }
}

proof fn no_dot(s: Seq<char>)
    requires
        forall|i: int| 0 <= i < s.len() ==> #[trigger] s[i] != '.',
    ensures
        last_dot(s) == -1,
    decreases s.len(),
{
    if s.len() > 0 {
        assert(s[s.len() - 1] != '.');
        assert forall|i: int| 0 <= i < s.drop_last().len() implies #[trigger] s.drop_last()[i]
            != '.' by {
            assert(s.drop_last()[i] == s[i]);
        }
        no_dot(s.drop_last());
    }
}

/// A tag or a running version that cannot be read is told, and never passed over.
pub proof fn unreadable_versions_are_told(
    current: &str,
    release: GithubRelease,
    r: Result<Option<UpdateInfo>, UpdateError>,
)
    requires
        call_ensures(check, (current, release), r),
    ensures
        version::version_of(current@) matches Err(why) ==> (r matches Err(e) && e.text()
            == "parsing current package version: "@ + why),
        version::version_of(current@) is Ok ==> (version::version_of(
            without_v(release.tag_name@),
        ) matches Err(why) ==> (r matches Err(e) && e.text() == "parsing latest tag `"@
            + release.tag_name@ + "`: "@ + why)),
        r matches Ok(Some(info)) ==> version::version_of(current@) == Ok::<
            version::VersionParts,
            Seq<char>,
        >(info.current@) && version::version_of(without_v(release.tag_name@)) == Ok::<
            version::VersionParts,
            Seq<char>,
        >(info.latest@) && !version::version_at_most(info.latest@, info.current@),
{
}

/// The install method is that of the binary's place, and each method has its steps.
pub proof fn methods_follow_places(
    exe: &str,
    home: &str,
    method: InstallMethod,
    info: UpdateInfo,
    tmp: &str,
    deb: Result<Vec<InstallStep>, UpdateError>,
    tarball: Result<Vec<InstallStep>, UpdateError>,
)
    requires
        call_ensures(detect_install_method_for, (exe, Some(home)), method),
        call_ensures(install_deb, (&info, tmp), deb),
        call_ensures(install_tarball, (&info, tmp), tarball),
    ensures
        method is Deb <==> "/usr/"@.is_prefix_of(exe@) || "/opt/"@.is_prefix_of(exe@),
        method is Tarball ==> home@.is_prefix_of(exe@),
        deb matches Ok(steps) ==> deeds(steps@).last() is Escalate,
        tarball matches Ok(steps) ==> deeds(steps@).last() is Replace && deeds(steps@)[2]
            is Verify,
{
    places_tell_the_method(Seq::empty(), home@, exe@);
}

/// Whether a release holds a file, and no checksum, whose name ends as given.
pub open spec fn has_file(assets: Seq<GithubAsset>, end: Seq<char>) -> bool {
    exists|k: int|
        0 <= k < assets.len() && end.is_suffix_of((#[trigger] assets[k]).name@)
            && !".sha256"@.is_suffix_of(assets[k].name@)
}

/// Whether a release holds something whose name ends as given.
pub open spec fn has_named(assets: Seq<GithubAsset>, end: Seq<char>) -> bool {
    exists|k: int| 0 <= k < assets.len() && end.is_suffix_of((#[trigger] assets[k]).name@)
}

/// A newer release is offered exactly where it holds the package, the tarball and the
/// tarball's checksum for the build's own backend, and the first of them that is
/// missing is told; what is offered is for that backend and no other, and the
/// package's checksum is among it exactly where the release holds it.
pub proof fn offers_are_for_the_backend(
    current: Version,
    latest: Version,
    release: GithubRelease,
    backend: &str,
    r: Result<UpdateInfo, UpdateError>,
)
    requires
        call_ensures(collect_assets, (current, latest, release, backend), r),
    ensures
        ({
            let assets = release.assets@;
            let deb = deb_suffix(backend@);
            let tarball = tarball_suffix(backend@);
            &&& r is Ok <==> has_file(assets, deb) && has_file(assets, tarball) && has_named(
                assets,
                tarball + ".sha256"@,
            )
            &&& r matches Err(e) ==> if !has_file(assets, deb) {
                e is MissingDeb
            } else if !has_file(assets, tarball) {
                e is MissingTarball
            } else {
                e is MissingTarballSum
            }
            &&& r matches Ok(info) ==> {
                &&& holds(assets, info.deb_url@, deb)
                &&& holds(assets, info.tarball_url@, tarball)
                &&& holds(assets, info.tarball_sha256_url@, tarball + ".sha256"@)
                &&& info.deb_sha256_url is Some <==> has_named(assets, deb + ".sha256"@)
                &&& info.deb_sha256_url matches Some(url) ==> holds(
                    assets,
                    url@,
                    deb + ".sha256"@,
                )
                &&& info.current@ == current@
                &&& info.latest@ == latest@
                &&& info.tag_name@ == release.tag_name@
                &&& info.html_url@ == release.html_url@
            }
        }),
{
    let assets = release.assets@;
    let deb = deb_suffix(backend@);
    let tarball = tarball_suffix(backend@);
    files_are_found(assets, deb);
    files_are_found(assets, tarball);
    checksums_are_found(assets, deb);
    checksums_are_found(assets, tarball);
    the_first_file_is_taken(assets, deb, 0);
    the_first_file_is_taken(assets, tarball, 0);
    the_first_checksum_is_taken(assets, deb, 0);
    the_first_checksum_is_taken(assets, tarball, 0);
    assert(offers(r, current@, latest@, release, backend@));
}

proof fn files_are_found(assets: Seq<GithubAsset>, end: Seq<char>)
    ensures
        primary_url(assets, end) is Some <==> has_file(assets, end),
{
    the_first_file_is_taken(assets, end, 0);
    if has_file(assets, end) && primary_url(assets, end) is None {
        let k = choose|k: int|
            0 <= k < assets.len() && end.is_suffix_of((#[trigger] assets[k]).name@)
                && !".sha256"@.is_suffix_of(assets[k].name@);
        the_first_file_is_taken(assets, end, k);
    }
}

proof fn checksums_are_found(assets: Seq<GithubAsset>, end: Seq<char>)
    ensures
        sum_url(assets, end) is Some <==> has_named(assets, end + ".sha256"@),
{
    the_first_checksum_is_taken(assets, end, 0);
    if has_named(assets, end + ".sha256"@) && sum_url(assets, end) is None {
        let k = choose|k: int|
            0 <= k < assets.len() && (end + ".sha256"@).is_suffix_of((#[trigger] assets[k]).name@);
        the_first_checksum_is_taken(assets, end, k);
    }
}

/// Why an install is refused, and what is said of it.
pub proof fn refused_installs_are_told(
    info: UpdateInfo,
    method: InstallMethod,
    tmp: &str,
    r: Result<Vec<InstallStep>, UpdateError>,
)
    requires
        call_ensures(install, (&info, method, tmp), r),
    ensures
        r matches Err(e) ==> e.text() == match method {
            InstallMethod::Deb =>
                "could not derive .deb filename from deb_url: url has no filename component: "@
                + info.deb_url@,
            InstallMethod::Tarball =>
                "could not derive tarball filename from tarball_url: url has no filename component: "@
                + info.tarball_url@,
            InstallMethod::DevBuild =>
                "running a development build; auto-update is refused. Rebuild from git, or install from the .deb on the release page."@,
        },
{
}

/// What is said of a release that lacks a file names the release, the backend and the
/// end of the name that was sought.
pub proof fn what_is_missing_is_told(
    current: Version,
    latest: Version,
    release: GithubRelease,
    backend: &str,
    r: Result<UpdateInfo, UpdateError>,
)
    requires
        call_ensures(collect_assets, (current, latest, release, backend), r),
    ensures
        r matches Err(e) ==> ("release "@ + release.tag_name@ + " is missing a "@).is_prefix_of(
            e.text(),
        ),
        r matches Err(UpdateError::MissingDeb { tag, backend: b, suffix }) ==> tag@
            == release.tag_name@ && b@ == backend@ && suffix@ == deb_suffix(backend@),
        r matches Err(UpdateError::MissingTarball { tag, backend: b, suffix }) ==> tag@
            == release.tag_name@ && b@ == backend@ && suffix@ == tarball_suffix(backend@),
        r matches Err(UpdateError::MissingTarballSum { tag, backend: b }) ==> tag@
            == release.tag_name@ && b@ == backend@,
{
    reveal_strlit(" is missing a ");
    reveal_strlit(" is missing a .deb asset for backend `");
    reveal_strlit(" is missing a tarball asset for backend `");
    reveal_strlit(" is missing a tarball SHA256 sidecar for backend `");
    assert(offers(r, current@, latest@, release, backend@));
    if r is Err {
        let told = r->Err_0.text();
        let front = "release "@ + release.tag_name@ + " is missing a "@;
        assert(told.subrange(0, front.len() as int) =~= front);
    }
}

/// The message of an error is its text, and two errors with the same text give the
/// same message.
pub proof fn messages_are_their_text(a: UpdateError, b: UpdateError, one: String, other: String)
    requires
        call_ensures(UpdateError::message, (&a,), one),
        call_ensures(UpdateError::message, (&b,), other),
    ensures
        one@ == a.text(),
        a.text() == b.text() <==> one@ == other@,
{
}

} // verus!
