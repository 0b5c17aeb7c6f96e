//! The self-updater's decisions: which release wins, what the apply policy
//! lets through, whether this install may update itself at all, which asset
//! and checksum belong to this platform, and whether a download is what the
//! release says it is. Fetching, staging on disk and swapping the binary
//! happen at the edge.

pub mod semver;

use vstd::prelude::*;

use crate::engine::{platform_of, release_platform};
use crate::json::{Json, JsonV};
use crate::supervisor::{hex_char, is_hex, is_valid_token, valid_token};
use crate::text::{
    basename, basename_chars, chars_of, ends_with, ends_with_exec,
    eq_ignore_case, eq_ignore_case_exec, eq_str, occurs, occurs_exec, owned, split_chars,
    split_on, split_words, string_of, trim, trim_bounds, words,
};

pub use semver::{compare_semver, parse_semver, policy_allows, semver, triple_lt, allows};

verus! {

/// How this binary was installed.
#[derive(Debug, Clone, Copy, PartialEq, Eq, Structural)]
pub enum InstallKind {
    /// A raw binary (curl install, manual placement): eligible for self-update.
    Raw,
    /// Homebrew, dpkg/apt, rpm, MSI, Chocolatey, Scoop: never self-updated.
    PackageManager,
}

impl InstallKind {
    /// The status label: `"raw"` or `"package_manager"`.
    pub fn label(&self) -> (r: &'static str)
        ensures
            r@ == (match *self {
                InstallKind::Raw => "raw"@,
                InstallKind::PackageManager => "package_manager"@,
            }),
    {
        match self {
            InstallKind::Raw => "raw",
            InstallKind::PackageManager => "package_manager",
        }
    }
}

/// Which version jumps may be staged automatically.
#[derive(Debug, Clone, Copy, PartialEq, Eq, Structural)]
pub enum ApplyPolicy {
    /// Same major and minor only.
    Patch,
    /// Same major only.
    Minor,
    /// Any newer version.
    All,
    /// Nothing automatically.
    Never,
}

/// The policy a config string names; anything unrecognized is `Patch`.
pub open spec fn policy_named(s: Seq<char>) -> ApplyPolicy {
    if s == "minor"@ {
        ApplyPolicy::Minor
    } else if s == "all"@ {
        ApplyPolicy::All
    } else if s == "none"@ {
        ApplyPolicy::Never
    } else {
        ApplyPolicy::Patch
    }
}

impl ApplyPolicy {
    /// Read `auto_update.auto_apply`; unknown values fall back to `Patch`.
    pub fn parse(s: &str) -> (r: ApplyPolicy)
        ensures
            r == policy_named(s@),
    {
        if eq_str(s, "minor") {
            ApplyPolicy::Minor
        } else if eq_str(s, "all") {
            ApplyPolicy::All
        } else if eq_str(s, "none") {
            ApplyPolicy::Never
        } else {
            ApplyPolicy::Patch
        }
    }
}

// ---------------------------------------------------------------------------
// Release feeds.
// ---------------------------------------------------------------------------

/// The project's own release endpoint for a channel: the list of releases
/// for `beta`, the latest release for anything else.
pub open spec fn default_feed(channel: Seq<char>) -> Seq<char> {
    if channel == "beta"@ {
        "https://api.github.com/repos/mrjeeves/Myo/releases"@
    } else {
        "https://api.github.com/repos/mrjeeves/Myo/releases/latest"@
    }
}

/// The version this library was built at.
pub fn current_version() -> (r: &'static str)
    ensures
        r@ == "0.1.0"@,
{
    "0.1.0"
}

/// The default stable release feed: the project's latest GitHub release.
pub fn default_release_api_stable() -> (r: &'static str)
    ensures
        r@ == default_feed("stable"@),
{
    proof {
        reveal_strlit("stable");
        reveal_strlit("beta");
        assert("stable"@.len() != "beta"@.len());
    }
    "https://api.github.com/repos/mrjeeves/Myo/releases/latest"
}

/// The default beta release feed: the project's list of GitHub releases.
pub fn default_release_api_beta() -> (r: &'static str)
    ensures
        r@ == default_feed("beta"@),
{
    "https://api.github.com/repos/mrjeeves/Myo/releases"
}

/// The project's GitHub release endpoint for `channel`.
pub fn github_default_release_url(channel: &str) -> (r: &'static str)
    ensures
        r@ == default_feed(channel@),
{
    if eq_str(channel, "beta") {
        "https://api.github.com/repos/mrjeeves/Myo/releases"
    } else {
        "https://api.github.com/repos/mrjeeves/Myo/releases/latest"
    }
}

/// The release feed to use: a non-empty `beta_url` / `stable_url` from the
/// `auto_update` config section (by channel; unknown channels are stable),
/// else the project's endpoint.
pub open spec fn feed_url(au: JsonV, channel: Seq<char>) -> Seq<char> {
    let key = if channel == "beta"@ {
        "beta_url"@
    } else {
        "stable_url"@
    };
    match au.str_member(key) {
        Some(u) => if u.len() > 0 {
            u
        } else {
            default_feed(channel)
        },
        None => default_feed(channel),
    }
}

/// Resolve which release-feed URL to use for `channel`, given the
/// `auto_update` config section.
pub fn resolve_release_url(au: &Json, channel: &str) -> (r: String)
    ensures
        r@ == feed_url(au@, channel@),
{
    let key = if eq_str(channel, "beta") {
        "beta_url"
    } else {
        "stable_url"
    };
    match au.get_str(key) {
        Some(u) => if !u.is_empty() {
            owned(u)
        } else {
            owned(github_default_release_url(channel))
        },
        None => owned(github_default_release_url(channel)),
    }
}

/// The release feed a build defaults to for `channel`: the feed the build
/// was pointed at (for the beta channel its beta feed, for any other its
/// stable feed) when one was set at build time, else the project's own.
pub open spec fn build_feed(channel: Seq<char>, stable_build: Option<Seq<char>>, beta_build: Option<Seq<char>>) -> Seq<char> {
    match (if channel == "beta"@ { beta_build } else { stable_build }) {
        Some(u) => u,
        None => default_feed(channel),
    }
}

/// The release feed to use: a non-empty `beta_url` / `stable_url` from the
/// `auto_update` config section (by channel; unknown channels are stable),
/// else the build's default feed.
pub open spec fn feed_url_with(au: JsonV, channel: Seq<char>, stable_build: Option<Seq<char>>, beta_build: Option<Seq<char>>) -> Seq<char> {
    let key = if channel == "beta"@ {
        "beta_url"@
    } else {
        "stable_url"@
    };
    match au.str_member(key) {
        Some(u) => if u.len() > 0 {
            u
        } else {
            build_feed(channel, stable_build, beta_build)
        },
        None => build_feed(channel, stable_build, beta_build),
    }
}

/// Resolve the release-feed URL for `channel`: the config section first,
/// then the feed the build was pointed at (`stable_build` / `beta_build`,
/// the values a vendor set at build time, if any), then the project's own.
pub fn resolve_release_url_with(au: &Json, channel: &str, stable_build: Option<&str>, beta_build: Option<&str>) -> (r: String)
    ensures
        r@ == feed_url_with(au@, channel@, crate::shell::opt_text(stable_build), crate::shell::opt_text(beta_build)),
{
    let beta = eq_str(channel, "beta");
    let key = if beta {
        "beta_url"
    } else {
        "stable_url"
    };
    if let Some(u) = au.get_str(key) {
        if !u.is_empty() {
            return owned(u);
        }
    }
    let build = if beta {
        beta_build
    } else {
        stable_build
    };
    match build {
        Some(b) => owned(b),
        None => owned(github_default_release_url(channel)),
    }
}

// ---------------------------------------------------------------------------
// Install-kind detection.
// ---------------------------------------------------------------------------

/// Homebrew, on macOS or Linux.
pub open spec fn homebrew_path(p: Seq<char>) -> bool {
    occurs(p, "/Cellar/"@, false) || "/opt/homebrew/"@.is_prefix_of(p)
        || "/home/linuxbrew/"@.is_prefix_of(p)
}

/// The system binary directories dpkg and rpm install into.
pub open spec fn linux_system_path(p: Seq<char>) -> bool {
    "/usr/bin/"@.is_prefix_of(p) || "/usr/sbin/"@.is_prefix_of(p)
}

/// The MSI install location and the Chocolatey / Scoop trees, in any case.
pub open spec fn windows_package_path(p: Seq<char>) -> bool {
    occurs(p, "\\program files\\"@, true) || occurs(p, "\\program files (x86)\\"@, true)
        || occurs(p, "\\chocolatey\\lib\\"@, true) || occurs(p, "\\scoop\\apps\\"@, true)
}

/// How the binary at `path` was installed, on the OS named `os`
/// (`std::env::consts::OS`).
pub open spec fn install_kind_of(path: Seq<char>, os: Seq<char>) -> InstallKind {
    if homebrew_path(path) || (os == "linux"@ && linux_system_path(path)) || (os == "windows"@
        && windows_package_path(path)) {
        InstallKind::PackageManager
    } else {
        InstallKind::Raw
    }
}

fn contains(hay: &Vec<char>, needle: &str, fold: bool) -> (r: bool)
    ensures
        r == occurs(hay@, needle@, fold),
{
    let n = chars_of(needle);
    occurs_exec(hay, &n, fold)
}

/// Classify the binary at `path` on the OS named `os`. Windows paths are
/// compared case-insensitively: the needles are ASCII, and the only
/// character Unicode lowercasing turns into an ASCII letter is the Kelvin
/// sign (into `k`, which no needle holds), so ASCII case folding decides the
/// same.
pub fn detect_install_kind_from_path(path: &str, os: &str) -> (r: InstallKind)
    ensures
        r == install_kind_of(path@, os@),
{
    let p = chars_of(path);
    if contains(&p, "/Cellar/", false) || crate::text::starts_with(path, "/opt/homebrew/")
        || crate::text::starts_with(path, "/home/linuxbrew/") {
        return InstallKind::PackageManager;
    }
    if eq_str(os, "linux") && (crate::text::starts_with(path, "/usr/bin/")
        || crate::text::starts_with(path, "/usr/sbin/")) {
        return InstallKind::PackageManager;
    }
    if eq_str(os, "windows") && (contains(&p, "\\program files\\", true) || contains(
        &p,
        "\\program files (x86)\\",
        true,
    ) || contains(&p, "\\chocolatey\\lib\\", true) || contains(&p, "\\scoop\\apps\\", true)) {
        return InstallKind::PackageManager;
    }
    InstallKind::Raw
}

// ---------------------------------------------------------------------------
// Assets.
// ---------------------------------------------------------------------------

/// Files that ride alongside a release artifact (checksums, signatures) and
/// must never be taken for the binary: by suffix, ignoring ASCII case.
pub open spec fn sidecar_name(name: Seq<char>) -> bool {
    ends_with(name, ".sha256"@, true) || ends_with(name, ".sha512"@, true) || ends_with(
        name,
        ".sig"@,
        true,
    ) || ends_with(name, ".asc"@, true) || ends_with(name, ".minisig"@, true) || ends_with(
        name,
        ".pem"@,
        true,
    )
}

fn ends_with_str(hay: &Vec<char>, suffix: &str) -> (r: bool)
    ensures
        r == ends_with(hay@, suffix@, true),
{
    let t = chars_of(suffix);
    ends_with_exec(hay, &t, true)
}

/// Is `name` a checksum or signature sidecar?
pub fn is_sidecar_asset(name: &str) -> (r: bool)
    ensures
        r == sidecar_name(name@),
{
    let n = chars_of(name);
    ends_with_str(&n, ".sha256") || ends_with_str(&n, ".sha512") || ends_with_str(&n, ".sig")
        || ends_with_str(&n, ".asc") || ends_with_str(&n, ".minisig") || ends_with_str(&n, ".pem")
}


/// The JSON values of a slice of documents.
pub open spec fn docs_view(v: Seq<Json>) -> Seq<JsonV> {
    Seq::new(v.len(), |i: int| v[i]@)
}

/// The substring the release workflow embeds in this target's asset names:
/// every Windows build is `windows-x86_64`; other targets are named as
/// their engine platform, and a target without one is `unknown`.
pub open spec fn triple_hint(os: Seq<char>, arch: Seq<char>) -> Seq<char> {
    if os == "windows"@ {
        "windows-x86_64"@
    } else {
        match platform_of(os, arch) {
            Some(p) => p,
            None => "unknown"@,
        }
    }
}

/// The asset-name hint for the target `os`/`arch`.
pub fn current_target_triple_hint(os: &str, arch: &str) -> (r: &'static str)
    ensures
        r@ == triple_hint(os@, arch@),
{
    if eq_str(os, "windows") {
        "windows-x86_64"
    } else {
        match release_platform(os, arch) {
            Some(p) => p,
            None => "unknown",
        }
    }
}

/// A release asset for the platform `needle`: its name holds the needle and
/// it is not a sidecar.
pub open spec fn platform_asset(a: JsonV, needle: Seq<char>) -> bool {
    match a.str_member("name"@) {
        Some(n) => occurs(n, needle, false) && !sidecar_name(n),
        None => false,
    }
}

/// The index of the first asset for the platform `needle`.
pub open spec fn first_platform_asset(assets: Seq<JsonV>, needle: Seq<char>) -> Option<int>
    decreases assets.len(),
{
    if assets.len() == 0 {
        None
    } else if platform_asset(assets[0], needle) {
        Some(0)
    } else {
        match first_platform_asset(assets.drop_first(), needle) {
            Some(i) => Some(i + 1),
            None => None,
        }
    }
}

/// The asset picked for a platform is the first one whose name holds the
/// platform's needle and is not a sidecar — so a checksum or signature file
/// is never taken for the binary, whatever the order the release lists them.
pub proof fn law_picked_asset_is_never_a_sidecar(assets: Seq<JsonV>, needle: Seq<char>)
    ensures
        first_platform_asset(assets, needle) matches Some(i) ==> 0 <= i < assets.len()
            && platform_asset(assets[i], needle) && forall|j: int| 0 <= j < i ==> !platform_asset(#[trigger] assets[j], needle),
        first_platform_asset(assets, needle) is None ==> forall|j: int|
            0 <= j < assets.len() ==> !platform_asset(#[trigger] assets[j], needle),
    decreases assets.len(),
{
    if assets.len() > 0 {
        law_picked_asset_is_never_a_sidecar(assets.drop_first(), needle);
        if !platform_asset(assets[0], needle) {
            assert forall|j: int| 1 <= j < assets.len() implies #[trigger] assets[j] == assets.drop_first()[j - 1] by {}
        }
    }
}

/// The release asset for the platform `needle` (the release workflow's
/// `<os>-<arch>` name part). Checksum and signature sidecars hold the needle
/// too and the asset order is not guaranteed, so sidecars are skipped
/// explicitly.
pub fn pick_asset<'a>(assets: &'a [Json], needle: &str) -> (r: Option<&'a Json>)
    ensures
        match first_platform_asset(docs_view(assets@), needle@) {
            Some(i) => r matches Some(a) && 0 <= i < assets@.len() && a@ == assets@[i]@,
            None => r is None,
        },
{
    let nd = chars_of(needle);
    let ghost all = docs_view(assets@);
    let mut i: usize = 0;
    assert(all.subrange(0, all.len() as int) =~= all);
    while i < assets.len()
        invariant
            i <= assets@.len(),
            all == docs_view(assets@),
            nd@ == needle@,
            first_platform_asset(all, needle@) == match first_platform_asset(
                all.subrange(i as int, all.len() as int),
                needle@,
            ) {
                Some(j) => Some(j + i),
                None => None,
            },
        decreases assets@.len() - i,
    {
        let ghost rest = all.subrange(i as int, all.len() as int);
        assert(rest[0] == assets@[i as int]@);
        assert(rest.drop_first() =~= all.subrange(i + 1, all.len() as int));
        let hit = match assets[i].get_str("name") {
            Some(n) => {
                let nc = chars_of(n);
                occurs_exec(&nc, &nd, false) && !is_sidecar_asset(n)
            },
            None => false,
        };
        if hit {
            return Some(&assets[i]);
        }
        i = i + 1;
    }
    None
}

/// The index of the first asset named exactly `name`.
pub open spec fn first_named(assets: Seq<JsonV>, name: Seq<char>) -> Option<int>
    decreases assets.len(),
{
    if assets.len() == 0 {
        None
    } else if assets[0].str_member("name"@) == Some(name) {
        Some(0)
    } else {
        match first_named(assets.drop_first(), name) {
            Some(i) => Some(i + 1),
            None => None,
        }
    }
}

/// A `SHA256SUMS` file, in any case.
pub open spec fn sums_file(a: JsonV) -> bool {
    match a.str_member("name"@) {
        Some(n) => eq_ignore_case(n, "SHA256SUMS"@),
        None => false,
    }
}

/// The index of the first `SHA256SUMS` asset.
pub open spec fn first_sums_file(assets: Seq<JsonV>) -> Option<int>
    decreases assets.len(),
{
    if assets.len() == 0 {
        None
    } else if sums_file(assets[0]) {
        Some(0)
    } else {
        match first_sums_file(assets.drop_first()) {
            Some(i) => Some(i + 1),
            None => None,
        }
    }
}

/// The checksum asset for `asset_name`: its own `<name>.sha256` sidecar,
/// else a `SHA256SUMS` file.
pub open spec fn sha_asset_index(assets: Seq<JsonV>, asset_name: Seq<char>) -> Option<int> {
    match first_named(assets, asset_name + ".sha256"@) {
        Some(i) => Some(i),
        None => first_sums_file(assets),
    }
}

fn find_named<'a>(assets: &'a [Json], name: &str) -> (r: Option<&'a Json>)
    ensures
        match first_named(docs_view(assets@), name@) {
            Some(i) => r matches Some(a) && 0 <= i < assets@.len() && a@ == assets@[i]@,
            None => r is None,
        },
{
    let ghost all = docs_view(assets@);
    let mut i: usize = 0;
    assert(all.subrange(0, all.len() as int) =~= all);
    while i < assets.len()
        invariant
            i <= assets@.len(),
            all == docs_view(assets@),
            first_named(all, name@) == match first_named(all.subrange(i as int, all.len() as int), name@) {
                Some(j) => Some(j + i),
                None => None,
            },
        decreases assets@.len() - i,
    {
        let ghost rest = all.subrange(i as int, all.len() as int);
        assert(rest[0] == assets@[i as int]@);
        assert(rest.drop_first() =~= all.subrange(i + 1, all.len() as int));
        let hit = match assets[i].get_str("name") {
            Some(n) => eq_str(n, name),
            None => false,
        };
        if hit {
            return Some(&assets[i]);
        }
        i = i + 1;
    }
    None
}

fn find_sums_file<'a>(assets: &'a [Json]) -> (r: Option<&'a Json>)
    ensures
        match first_sums_file(docs_view(assets@)) {
            Some(i) => r matches Some(a) && 0 <= i < assets@.len() && a@ == assets@[i]@,
            None => r is None,
        },
{
    let ghost all = docs_view(assets@);
    let mut i: usize = 0;
    assert(all.subrange(0, all.len() as int) =~= all);
    while i < assets.len()
        invariant
            i <= assets@.len(),
            all == docs_view(assets@),
            first_sums_file(all) == match first_sums_file(all.subrange(i as int, all.len() as int)) {
                Some(j) => Some(j + i),
                None => None,
            },
        decreases assets@.len() - i,
    {
        let ghost rest = all.subrange(i as int, all.len() as int);
        assert(rest[0] == assets@[i as int]@);
        assert(rest.drop_first() =~= all.subrange(i + 1, all.len() as int));
        let hit = match assets[i].get_str("name") {
            Some(n) => eq_ignore_case_exec(n, "SHA256SUMS"),
            None => false,
        };
        if hit {
            return Some(&assets[i]);
        }
        i = i + 1;
    }
    None
}

/// The checksum asset for `asset_name`: the matching `.sha256` sidecar
/// first, then a `SHA256SUMS` file.
pub fn pick_sha_asset<'a>(assets: &'a [Json], asset_name: &str) -> (r: Option<&'a Json>)
    ensures
        match sha_asset_index(docs_view(assets@), asset_name@) {
            Some(i) => r matches Some(a) && 0 <= i < assets@.len() && a@ == assets@[i]@,
            None => r is None,
        },
{
    let mut preferred = owned(asset_name);
    vstd::string::StringExecFns::append(&mut preferred, ".sha256");
    match find_named(assets, preferred.as_str()) {
        Some(a) => Some(a),
        None => find_sums_file(assets),
    }
}

// ---------------------------------------------------------------------------
// Checksums.
// ---------------------------------------------------------------------------

/// Without its leading `*`s (the binary-mode marker of a sums line).
pub open spec fn strip_stars(s: Seq<char>) -> Seq<char>
    decreases s.len(),
{
    if s.len() > 0 && s[0] == '*' {
        strip_stars(s.drop_first())
    } else {
        s
    }
}

/// What one line of a sums file says about the file named `target`: the
/// hash, when the line is `<hash> <name>` or `<hash> *<name>` and the name's
/// basename is `target`. Blank lines and `#` comments say nothing.
pub open spec fn line_hash(line: Seq<char>, target: Seq<char>) -> Option<Seq<char>> {
    let t = trim(line);
    if t.len() == 0 || t[0] == '#' {
        None
    } else {
        let w = words(t);
        if w.len() < 2 {
            None
        } else if basename(strip_stars(w[1])) == target {
            Some(w[0])
        } else {
            None
        }
    }
}

/// The hash the first line naming `target` gives.
pub open spec fn first_line_hash(lines: Seq<Seq<char>>, target: Seq<char>) -> Option<Seq<char>>
    decreases lines.len(),
{
    if lines.len() == 0 {
        None
    } else {
        match line_hash(lines[0], target) {
            Some(h) => Some(h),
            None => first_line_hash(lines.drop_first(), target),
        }
    }
}

/// The expected SHA-256 of `asset_name` according to a checksum file: from
/// the first line naming it (by basename, so a path prefix in the sums file
/// still matches); else, for a single-asset `.sha256` file, the whole text
/// when it is exactly one 64-digit hexadecimal hash.
pub open spec fn expected_sha(sha_text: Seq<char>, asset_name: Seq<char>) -> Option<Seq<char>> {
    match first_line_hash(split_on(sha_text, '\n'), basename(asset_name)) {
        Some(h) => Some(h),
        None => if valid_token(trim(sha_text)) {
            Some(trim(sha_text))
        } else {
            None
        },
    }
}

fn sub_chars(s: &Vec<char>, b: usize, e: usize) -> (r: Vec<char>)
    requires
        b <= e <= s@.len(),
    ensures
        r@ == s@.subrange(b as int, e as int),
{
    let mut r: Vec<char> = Vec::new();
    let mut k: usize = b;
    while k < e
        invariant
            b <= k <= e <= s@.len(),
            r@ == s@.subrange(b as int, k as int),
        decreases e - k,
    {
        r.push(s[k]);
        assert(r@ =~= s@.subrange(b as int, k + 1));
        k = k + 1;
    }
    r
}

fn strip_stars_chars(s: &Vec<char>) -> (r: Vec<char>)
    ensures
        r@ == strip_stars(s@),
{
    let mut b: usize = 0;
    assert(s@.subrange(0, s@.len() as int) =~= s@);
    while b < s.len() && s[b] == '*'
        invariant
            b <= s@.len(),
            strip_stars(s@) == strip_stars(s@.subrange(b as int, s@.len() as int)),
        decreases s@.len() - b,
    {
        assert(s@.subrange(b as int, s@.len() as int).drop_first() =~= s@.subrange(b + 1, s@.len() as int));
        b = b + 1;
    }
    sub_chars(s, b, s.len())
}

fn line_hash_exec(line: &Vec<char>, target: &Vec<char>) -> (r: Option<Vec<char>>)
    ensures
        match line_hash(line@, target@) {
            Some(h) => r matches Some(x) && x@ == h,
            None => r is None,
        },
{
    let (b, e) = trim_bounds(line);
    let t = sub_chars(line, b, e);
    if t.len() == 0 || t[0] == '#' {
        return None;
    }
    let w = split_words(&t);
    if w.len() < 2 {
        return None;
    }
    let name = strip_stars_chars(&w[1]);
    let base = basename_chars(&name);
    let mut same = base.len() == target.len();
    let mut k: usize = 0;
    while same && k < base.len()
        invariant
            base@.len() == target@.len() ==> (same ==> forall|m: int| 0 <= m < k ==> base@[m] == target@[m]),
            !same ==> base@ != target@,
            same ==> base@.len() == target@.len(),
            k <= base@.len(),
        decreases base@.len() - k,
    {
        if base[k] != target[k] {
            same = false;
        }
        k = k + 1;
    }
    if same {
        assert(base@ =~= target@);
        let mut h: Vec<char> = Vec::new();
        let first = &w[0];
        let mut j: usize = 0;
        while j < first.len()
            invariant
                j <= first@.len(),
                h@ == first@.subrange(0, j as int),
            decreases first@.len() - j,
        {
            h.push(first[j]);
            assert(h@ =~= first@.subrange(0, j + 1));
            j = j + 1;
        }
        assert(h@ =~= first@);
        Some(h)
    } else {
        None
    }
}

/// The expected SHA-256 of `asset_name` according to a checksum file.
pub fn expected_sha_for(sha_text: &str, asset_name: &str) -> (r: Option<String>)
    ensures
        match expected_sha(sha_text@, asset_name@) {
            Some(h) => r matches Some(x) && x@ == h,
            None => r is None,
        },
{
    let text = chars_of(sha_text);
    let an = chars_of(asset_name);
    let target = basename_chars(&an);
    let lines = split_chars(&text, '\n');
    let ghost ls = split_on(sha_text@, '\n');
    let mut i: usize = 0;
    assert(ls.subrange(0, ls.len() as int) =~= ls);
    while i < lines.len()
        invariant
            i <= lines@.len(),
            lines@.len() == ls.len(),
            ls == split_on(sha_text@, '\n'),
            target@ == basename(asset_name@),
            forall|k: int| 0 <= k < lines@.len() ==> #[trigger] lines@[k]@ == ls[k],
            first_line_hash(ls, target@) == first_line_hash(ls.subrange(i as int, ls.len() as int), target@),
        decreases lines@.len() - i,
    {
        let ghost rest = ls.subrange(i as int, ls.len() as int);
        assert(rest[0] == lines@[i as int]@);
        assert(rest.drop_first() =~= ls.subrange(i + 1, ls.len() as int));
        match line_hash_exec(&lines[i], &target) {
            Some(h) => return Some(string_of(h.as_slice())),
            None => {},
        }
        i = i + 1;
    }
    assert(ls.subrange(ls.len() as int, ls.len() as int) =~= Seq::<Seq<char>>::empty());
    let (b, e) = trim_bounds(&text);
    let stripped = string_of(&text.as_slice()[b..e]);
    proof {
        assert(text@.subrange(b as int, e as int) == trim(sha_text@));
    }
    if is_valid_token(stripped.as_str()) {
        Some(stripped)
    } else {
        None
    }
}


// ---------------------------------------------------------------------------
// Verifying a download.
// ---------------------------------------------------------------------------

/// The SHA-256 digest of a byte string.
pub uninterp spec fn sha256_of(bytes: Seq<u8>) -> Seq<u8>;

/// `Sha256::digest` (sha2): the 32-byte SHA-256 digest of `bytes`.
#[verifier::external_body]
fn sha256_digest(bytes: &[u8]) -> (r: Vec<u8>)
    ensures
        r@ == sha256_of(bytes@),
        r@.len() == 32,
{
    <sha2::Sha256 as sha2::Digest>::digest(bytes).to_vec()
}

/// Lowercase hexadecimal, two digits per byte, high nibble first.
pub open spec fn hex_lower(b: Seq<u8>) -> Seq<char>
    decreases b.len(),
{
    if b.len() == 0 {
        seq![]
    } else {
        hex_lower(b.drop_last()) + seq![hex_char(b.last() as nat / 16), hex_char(b.last() as nat % 16)]
    }
}

/// `hex::encode`: each byte as two lowercase hexadecimal digits, high
/// nibble first.
#[verifier::external_body]
fn hex_encode(bytes: &[u8]) -> (r: String)
    ensures
        r@ == hex_lower(bytes@),
{
    hex::encode(bytes)
}

/// Why a download was refused.
#[derive(Debug, Clone, PartialEq, Eq)]
pub enum VerifyError {
    /// The checksum file lists no entry for the asset.
    NoEntry,
    /// The download's digest is not the one the checksum file gives.
    Mismatch { expected: String, actual: String },
}

/// Check a download's hex digest against a checksum file: `Ok` when the
/// file's entry for `asset_name` matches it ignoring ASCII case, `NoEntry`
/// when the file names no such asset, `Mismatch` otherwise.
pub fn check_digest(actual: &str, sha_text: &str, asset_name: &str) -> (r: Result<(), VerifyError>)
    ensures
        match expected_sha(sha_text@, asset_name@) {
            None => r matches Err(VerifyError::NoEntry),
            Some(e) => if eq_ignore_case(actual@, e) {
                r is Ok
            } else {
                r matches Err(VerifyError::Mismatch { expected, actual: got }) && expected@ == e
                    && got@ == actual@
            },
        },
{
    match expected_sha_for(sha_text, asset_name) {
        None => Err(VerifyError::NoEntry),
        Some(expected) => {
            if eq_ignore_case_exec(actual, expected.as_str()) {
                Ok(())
            } else {
                Err(VerifyError::Mismatch { expected, actual: owned(actual) })
            }
        },
    }
}

/// The lowercase hexadecimal SHA-256 of `bytes`.
pub fn sha256_hex(bytes: &[u8]) -> (r: String)
    ensures
        r@ == hex_lower(sha256_of(bytes@)),
{
    let d = sha256_digest(bytes);
    hex_encode(d.as_slice())
}

/// Verify a downloaded asset against its checksum file: its SHA-256 must be
/// the hash the file gives for `asset_name`.
pub fn verify_download(bytes: &[u8], sha_text: &str, asset_name: &str) -> (r: Result<(), VerifyError>)
    ensures
        match expected_sha(sha_text@, asset_name@) {
            None => r matches Err(VerifyError::NoEntry),
            Some(e) => if eq_ignore_case(hex_lower(sha256_of(bytes@)), e) {
                r is Ok
            } else {
                r matches Err(VerifyError::Mismatch { expected, actual }) && expected@ == e
                    && actual@ == hex_lower(sha256_of(bytes@))
            },
        },
{
    let actual = sha256_hex(bytes);
    check_digest(actual.as_str(), sha_text, asset_name)
}

// ---------------------------------------------------------------------------
// Archives.
// ---------------------------------------------------------------------------

/// What to do with a downloaded file before installing it.
#[derive(Debug, Clone, Copy, PartialEq, Eq, Structural)]
pub enum Unpack {
    /// A `.tar.gz`, `.tgz` or `.zip`: extract the `myo` binary from it.
    Extract,
    /// Already the raw binary.
    AsIs,
    /// A checksum or signature sidecar: never install it.
    RefuseSidecar,
}

/// How a staged file named `name` is to be installed.
pub open spec fn unpack_of(name: Seq<char>) -> Unpack {
    if sidecar_name(name) {
        Unpack::RefuseSidecar
    } else if ends_with(name, ".tar.gz"@, false) || ends_with(name, ".tgz"@, false) || ends_with(
        name,
        ".zip"@,
        false,
    ) {
        Unpack::Extract
    } else {
        Unpack::AsIs
    }
}

/// Decide how to install the staged file `name`: refuse a sidecar (a corrupt
/// marker could point at one), extract an archive, take anything else as the
/// binary itself.
pub fn unpack_plan(name: &str) -> (r: Unpack)
    ensures
        r == unpack_of(name@),
{
    if is_sidecar_asset(name) {
        return Unpack::RefuseSidecar;
    }
    let n = chars_of(name);
    let a = chars_of(".tar.gz");
    let b = chars_of(".tgz");
    let c = chars_of(".zip");
    if ends_with_exec(&n, &a, false) || ends_with_exec(&n, &b, false) || ends_with_exec(&n, &c, false) {
        Unpack::Extract
    } else {
        Unpack::AsIs
    }
}


// ---------------------------------------------------------------------------
// The `auto_update` config section.
// ---------------------------------------------------------------------------

/// The `key` member as a boolean, or `default` when absent or not a boolean.
pub open spec fn bool_or(v: JsonV, key: Seq<char>, default: bool) -> bool {
    match v.get(key) {
        Some(x) => match x.as_bool() {
            Some(b) => b,
            None => default,
        },
        None => default,
    }
}

/// The `key` member as text, or `default` when absent or not a string.
pub open spec fn str_or(v: JsonV, key: Seq<char>, default: Seq<char>) -> Seq<char> {
    match v.str_member(key) {
        Some(s) => s,
        None => default,
    }
}

fn get_bool_or(v: &Json, key: &str, default: bool) -> (r: bool)
    ensures
        r == bool_or(v@, key@, default),
{
    match v.get(key) {
        Some(x) => match x.as_bool() {
            Some(b) => b,
            None => default,
        },
        None => default,
    }
}

fn get_str_or(v: &Json, key: &str, default: &str) -> (r: String)
    ensures
        r@ == str_or(v@, key@, default@),
{
    match v.get_str(key) {
        Some(s) => owned(s),
        None => owned(default),
    }
}

/// `auto_update.enabled`, on unless set to `false`.
pub fn auto_update_enabled(au: &Json) -> (r: bool)
    ensures
        r == bool_or(au@, "enabled"@, true),
{
    get_bool_or(au, "enabled", true)
}

/// `auto_update.channel`, `stable` by default.
pub fn update_channel(au: &Json) -> (r: String)
    ensures
        r@ == str_or(au@, "channel"@, "stable"@),
{
    get_str_or(au, "channel", "stable")
}

/// `auto_update.auto_apply`, `patch` by default.
pub fn auto_apply_setting(au: &Json) -> (r: String)
    ensures
        r@ == str_or(au@, "auto_apply"@, "patch"@),
{
    get_str_or(au, "auto_apply", "patch")
}

/// Does the `MYO_AUTOUPDATE` environment value (`None` when unset) turn
/// self-update off? Only `0` and `false` (any case) do.
pub fn env_disables_autoupdate(value: Option<&str>) -> (r: bool)
    ensures
        r == (value matches Some(v) && (v@ == "0"@ || eq_ignore_case(v@, "false"@))),
{
    match value {
        Some(v) => eq_str(v, "0") || eq_ignore_case_exec(v, "false"),
        None => false,
    }
}

// ---------------------------------------------------------------------------
// Checking for an update.
// ---------------------------------------------------------------------------

/// The structured result of a release check.
#[derive(Debug, Clone, PartialEq, Eq)]
pub enum CheckOutcome {
    /// `auto_update.enabled = false` or `MYO_AUTOUPDATE=0`.
    Disabled,
    /// The install lives under a package manager: defer to the OS.
    PackageManager,
    /// Nothing newer is published.
    UpToDate { current: String, latest: String },
    /// A newer binary was (or is to be) downloaded, verified and staged.
    Staged { version: String },
    /// A newer release exists but `auto_apply` does not permit it.
    PolicyBlocked { current: String, latest: String, policy: String },
}

/// The gates before any network call: disabled in config or environment,
/// then a package-manager install. `None` means go ahead.
pub fn gate_check(au: &Json, env_disabled: bool, kind: InstallKind) -> (r: Option<CheckOutcome>)
    ensures
        !bool_or(au@, "enabled"@, true) || env_disabled ==> r matches Some(CheckOutcome::Disabled),
        bool_or(au@, "enabled"@, true) && !env_disabled && kind == InstallKind::PackageManager
            ==> r matches Some(CheckOutcome::PackageManager),
        bool_or(au@, "enabled"@, true) && !env_disabled && kind == InstallKind::Raw ==> r is None,
{
    if !auto_update_enabled(au) || env_disabled {
        return Some(CheckOutcome::Disabled);
    }
    match kind {
        InstallKind::PackageManager => Some(CheckOutcome::PackageManager),
        InstallKind::Raw => None,
    }
}

/// The version a release's `tag_name` announces, without leading `v`s.
pub open spec fn release_version(release: JsonV) -> Option<Seq<char>> {
    match release.str_member("tag_name"@) {
        Some(t) => Some(crate::engine::strip_vs(t)),
        None => None,
    }
}

/// The version a release announces; `None` when it has no `tag_name`.
pub fn latest_version(release: &Json) -> (r: Option<String>)
    ensures
        match release_version(release@) {
            Some(v) => r matches Some(x) && x@ == v,
            None => r is None,
        },
{
    match release.get_str("tag_name") {
        Some(t) => {
            let cs = chars_of(t);
            let mut b: usize = 0;
            assert(cs@.subrange(0, cs@.len() as int) =~= cs@);
            while b < cs.len() && cs[b] == 'v'
                invariant
                    cs@ == t@,
                    b <= cs@.len(),
                    crate::engine::strip_vs(t@) == crate::engine::strip_vs(cs@.subrange(b as int, cs@.len() as int)),
                decreases cs@.len() - b,
            {
                assert(cs@.subrange(b as int, cs@.len() as int).drop_first() =~= cs@.subrange(b + 1, cs@.len() as int));
                b = b + 1;
            }
            Some(string_of(&cs.as_slice()[b..cs.len()]))
        },
        None => None,
    }
}

/// What to do about the published `latest` when running `current` under the
/// `policy` setting: nothing when it is not newer, refuse when the policy
/// does not permit the jump, else stage it.
pub fn judge_release(current: &str, latest: &str, policy: &str) -> (r: CheckOutcome)
    ensures
        !triple_lt(semver(current@), semver(latest@)) ==> (r matches CheckOutcome::UpToDate { current: c, latest: l }
            && c@ == current@ && l@ == latest@),
        triple_lt(semver(current@), semver(latest@)) && !allows(policy_named(policy@), semver(current@), semver(latest@))
            ==> (r matches CheckOutcome::PolicyBlocked { current: c, latest: l, policy: p }
            && c@ == current@ && l@ == latest@ && p@ == policy@),
        triple_lt(semver(current@), semver(latest@)) && allows(policy_named(policy@), semver(current@), semver(latest@))
            ==> (r matches CheckOutcome::Staged { version } && version@ == latest@),
{
    if !semver::is_older(current, latest) {
        return CheckOutcome::UpToDate { current: owned(current), latest: owned(latest) };
    }
    if !policy_allows(ApplyPolicy::parse(policy), current, latest) {
        return CheckOutcome::PolicyBlocked {
            current: owned(current),
            latest: owned(latest),
            policy: owned(policy),
        };
    }
    CheckOutcome::Staged { version: owned(latest) }
}

/// Why no release could be taken from a feed's reply.
#[derive(Debug, Clone, Copy, PartialEq, Eq, Structural)]
pub enum ReleaseError {
    /// The beta feed did not answer with a list.
    NotAList,
    /// Every release on the beta feed is a draft.
    NoUsableRelease,
}

/// Not a draft (`draft` absent or not `true`).
pub open spec fn usable_release(r: JsonV) -> bool {
    !bool_or(r, "draft"@, false)
}

/// The index of the first usable release of a list.
pub open spec fn first_usable(rs: Seq<JsonV>) -> Option<int>
    decreases rs.len(),
{
    if rs.len() == 0 {
        None
    } else if usable_release(rs[0]) {
        Some(0)
    } else {
        match first_usable(rs.drop_first()) {
            Some(i) => Some(i + 1),
            None => None,
        }
    }
}

/// The release to act on from a feed's reply: the beta feed lists releases
/// and the first non-draft wins; any other channel's feed is the release.
pub fn select_release<'a>(body: &'a Json, channel: &str) -> (r: Result<&'a Json, ReleaseError>)
    ensures
        channel@ != "beta"@ ==> (r matches Ok(x) && x@ == body@),
        channel@ == "beta"@ ==> match body@ {
            JsonV::Array(rs) => match first_usable(rs) {
                Some(i) => r matches Ok(x) && 0 <= i < rs.len() && x@ == rs[i],
                None => r matches Err(ReleaseError::NoUsableRelease),
            },
            _ => r matches Err(ReleaseError::NotAList),
        },
{
    if !eq_str(channel, "beta") {
        return Ok(body);
    }
    match body {
        Json::Array(rs) => {
            let ghost all = body@->Array_0;
            let mut i: usize = 0;
            assert(all.subrange(0, all.len() as int) =~= all);
            while i < rs.len()
                invariant
                    *body == Json::Array(*rs),
                    channel@ == "beta"@,
                    all == body@->Array_0,
                    all.len() == rs@.len(),
                    i <= rs@.len(),
                    first_usable(all) == match first_usable(all.subrange(i as int, all.len() as int)) {
                        Some(j) => Some(j + i),
                        None => None,
                    },
                decreases rs@.len() - i,
            {
                let ghost rest = all.subrange(i as int, all.len() as int);
                assert(rest[0] == rs@[i as int]@);
                assert(rest.drop_first() =~= all.subrange(i + 1, all.len() as int));
                if !get_bool_or(&rs[i], "draft", false) {
                    return Ok(&rs[i]);
                }
                i = i + 1;
            }
            Err(ReleaseError::NoUsableRelease)
        },
        _ => Err(ReleaseError::NotAList),
    }
}

// ---------------------------------------------------------------------------
// The staged update.
// ---------------------------------------------------------------------------

/// A staged update waiting for the next launch.
#[derive(Debug, Clone, PartialEq, Eq)]
pub struct PendingUpdate {
    pub version: String,
    pub staged_at: String,
}

/// The staged update a marker document describes, if it is an upgrade over
/// `current`. A marker that did not parse (`None`), or whose version is not
/// newer, describes none — and is to be deleted, so a stale entry never
/// keeps announcing an update.
pub fn pending_entry(doc: Option<&Json>, current: &str) -> (r: Option<PendingUpdate>)
    ensures
        match doc {
            None => r is None,
            Some(d) => {
                let v = str_or(d@, "version"@, "?"@);
                if triple_lt(semver(current@), semver(v)) {
                    r matches Some(p) && p.version@ == v && p.staged_at@ == str_or(d@, "staged_at"@, "?"@)
                } else {
                    r is None
                }
            },
        },
{
    match doc {
        None => None,
        Some(d) => {
            let version = get_str_or(d, "version", "?");
            let staged_at = get_str_or(d, "staged_at", "?");
            if semver::is_older(current, version.as_str()) {
                Some(PendingUpdate { version, staged_at })
            } else {
                None
            }
        },
    }
}

/// What applying a staged update comes to.
#[derive(Debug, Clone, PartialEq, Eq)]
pub enum ApplyStep {
    /// The marker names no staged file: an error.
    MissingPath,
    /// Not an upgrade over the running binary (a stale marker): delete it and
    /// do nothing — a downgrade is never applied.
    Discard,
    /// Swap in the binary at `path`, announced as `version`.
    Apply { path: String, version: String },
}

/// Decide what to do with a parsed `pending.json` when running `current`.
pub fn apply_step(doc: &Json, current: &str) -> (r: ApplyStep)
    ensures
        match doc@.str_member("path"@) {
            None => r is MissingPath,
            Some(p) => {
                let v = str_or(doc@, "version"@, "?"@);
                if triple_lt(semver(current@), semver(v)) {
                    r matches ApplyStep::Apply { path, version } && path@ == p && version@ == v
                } else {
                    r is Discard
                }
            },
        },
{
    let path = match doc.get_str("path") {
        Some(p) => owned(p),
        None => return ApplyStep::MissingPath,
    };
    let version = get_str_or(doc, "version", "?");
    if semver::is_older(current, version.as_str()) {
        ApplyStep::Apply { path, version }
    } else {
        ApplyStep::Discard
    }
}

/// The marker written when an update is staged:
/// `{version, path, staged_at}`.
pub fn pending_marker(version: &str, path: &str, staged_at: &str) -> (r: Json)
    ensures
        r@ == JsonV::Object(seq![
            ("version"@, JsonV::Str(version@)),
            ("path"@, JsonV::Str(path@)),
            ("staged_at"@, JsonV::Str(staged_at@)),
        ]),
{
    let members = vec![
        (owned("version"), Json::text(version)),
        (owned("path"), Json::text(path)),
        (owned("staged_at"), Json::text(staged_at)),
    ];
    assert(crate::event::pairs_view(members@) =~= seq![
        ("version"@, JsonV::Str(version@)),
        ("path"@, JsonV::Str(path@)),
        ("staged_at"@, JsonV::Str(staged_at@)),
    ]);
    crate::event::object(members)
}

/// One reclaimable update leftover.
#[derive(Debug, Clone, PartialEq, Eq)]
pub struct UpdateLeftover {
    /// `old-binary` for the Windows side-swap file, `staged:<version>` for a
    /// staging directory.
    pub id: String,
    pub label: String,
    pub path: String,
    pub size_bytes: u64,
}

/// The staging directory `name` (at `path`, `size` bytes) as a leftover —
/// unless it is the version a live marker still points at, which is in
/// flight and left alone.
pub fn staged_leftover(name: &str, path: &str, size: u64, pending: Option<&str>) -> (r: Option<UpdateLeftover>)
    ensures
        (pending matches Some(p) && p@ == name@) ==> r is None,
        !(pending matches Some(p) && p@ == name@) ==> (r matches Some(l) && l.id@ == "staged:"@ + name@
            && l.label@ == "Staged update v"@ + name@ && l.path@ == path@ && l.size_bytes == size),
{
    if let Some(p) = pending {
        if eq_str(p, name) {
            return None;
        }
    }
    let mut id = owned("staged:");
    vstd::string::StringExecFns::append(&mut id, name);
    let mut label = owned("Staged update v");
    vstd::string::StringExecFns::append(&mut label, name);
    Some(UpdateLeftover { id, label, path: owned(path), size_bytes: size })
}

/// The previous binary a Windows side-swap left at `path`.
pub fn old_binary_leftover(path: &str, size: u64) -> (r: UpdateLeftover)
    ensures
        r.id@ == "old-binary"@,
        r.label@ == "Previous binary (.old)"@,
        r.path@ == path@,
        r.size_bytes == size,
{
    UpdateLeftover {
        id: owned("old-binary"),
        label: owned("Previous binary (.old)"),
        path: owned(path),
        size_bytes: size,
    }
}

/// Bytes freed so far plus one more removed item, saturating.
pub fn add_freed(freed: u64, size: u64) -> (r: u64)
    ensures
        r == if freed + size > u64::MAX { u64::MAX as int } else { freed + size },
{
    freed.saturating_add(size)
}

/// The `myo update` subcommands.
#[derive(Debug, Clone, PartialEq, Eq)]
pub enum UpdateCommand {
    /// No argument: check, download, verify, extract and apply in one go.
    Run,
    Status,
    Check,
    Apply,
    Enable,
    Disable,
    /// Anything else: an error naming it.
    Unknown(String),
}

/// Read the `myo update` arguments.
pub fn parse_update_command(args: &[String]) -> (r: UpdateCommand)
    ensures
        args@.len() == 0 ==> r is Run,
        args@.len() > 0 ==> {
            let a = args@[0]@;
            if a == "status"@ {
                r is Status
            } else if a == "check"@ {
                r is Check
            } else if a == "apply"@ {
                r is Apply
            } else if a == "enable"@ {
                r is Enable
            } else if a == "disable"@ {
                r is Disable
            } else {
                r matches UpdateCommand::Unknown(u) && u@ == a
            }
        },
{
    if args.len() == 0 {
        return UpdateCommand::Run;
    }
    let a = args[0].as_str();
    if eq_str(a, "status") {
        UpdateCommand::Status
    } else if eq_str(a, "check") {
        UpdateCommand::Check
    } else if eq_str(a, "apply") {
        UpdateCommand::Apply
    } else if eq_str(a, "enable") {
        UpdateCommand::Enable
    } else if eq_str(a, "disable") {
        UpdateCommand::Disable
    } else {
        UpdateCommand::Unknown(owned(a))
    }
}

/// The process named in the background watcher's lock file: its trimmed
/// text read as a process id, when it is one.
pub fn lock_holder(content: &str) -> (r: Option<u32>)
    ensures
        r == crate::text::parse_u32(trim(content@)),
{
    let cs = chars_of(content);
    let (b, e) = trim_bounds(&cs);
    let mut t: Vec<char> = Vec::new();
    let mut i: usize = b;
    while i < e
        invariant
            b <= i <= e <= cs@.len(),
            t@ == cs@.subrange(b as int, i as int),
        decreases e - i,
    {
        t.push(cs[i]);
        i = i + 1;
    }
    crate::text::parse_u32_chars(&t)
}

} // verus!
