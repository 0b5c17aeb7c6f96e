//! Pinned-engine resolution: is the resolved `myownllm` new enough, and where
//! would the pinned release be fetched from? Version comparison, the
//! platform→asset mapping, the release URL, the check a fetched binary must
//! pass, and the decisions that heal a stale engine up to the pin; running
//! `--version`, downloading and unpacking happen at the edge.

use vstd::prelude::*;
use vstd::string::{StrSliceExecFns, StringExecFns};

use crate::text::{
    chars_of, dec_value, eq_str, first_index, is_whitespace, is_ws, lemma_first_index_at,
    lemma_first_index_none, lemma_trim_end_bound, parse_u32, parse_u32_chars, split_chars,
    split_on, trim, trim_bounds, trim_end_len,
};

verus! {

// ---------------------------------------------------------------------------
// The version token.
// ---------------------------------------------------------------------------

/// The first line of `s` (`str::lines().next()`, up to the first `\n`).
pub open spec fn first_line(s: Seq<char>) -> Seq<char> {
    match first_index(s, '\n') {
        Some(i) => s.subrange(0, i),
        None => s,
    }
}

/// Where the word that ends at `e` starts.
pub open spec fn word_start(l: Seq<char>, e: int) -> int
    decreases e,
{
    if e <= 0 {
        0
    } else if is_ws(l[e - 1]) {
        e
    } else {
        word_start(l, e - 1)
    }
}

/// The last white-space-separated word of the first line, if there is one.
pub open spec fn version_token(s: Seq<char>) -> Option<Seq<char>> {
    let l = first_line(s);
    let e = trim_end_len(l, l.len() as int);
    if e <= 0 {
        None
    } else {
        Some(l.subrange(word_start(l, e), e))
    }
}

proof fn lemma_word_start(l: Seq<char>, e: int)
    requires
        0 <= e <= l.len(),
    ensures
        0 <= word_start(l, e) <= e,
    decreases e,
{
    if e > 0 && !is_ws(l[e - 1]) {
        lemma_word_start(l, e - 1);
    }
}

/// Reduce a `myownllm --version` line (`"myownllm 0.2.24"`) to its version
/// token (`"0.2.24"`): the last white-space-separated word of the first line.
pub fn parse_version_token(version_output: &str) -> (r: Option<&str>)
    ensures
        r matches Some(t) ==> version_token(version_output@) == Some(t@),
        r is None ==> version_token(version_output@) is None,
{
    let cs = chars_of(version_output);
    // The first line.
    let mut n: usize = 0;
    while n < cs.len() && cs[n] != '\n'
        invariant
            cs@ == version_output@,
            n <= cs@.len(),
            forall|k: int| 0 <= k < n ==> cs@[k] != '\n',
        decreases cs@.len() - n,
    {
        n = n + 1;
    }
    let ghost l = cs@.subrange(0, n as int);
    proof {
        if n < cs.len() {
            lemma_first_index_at(cs@, '\n', n as int);
        } else {
            lemma_first_index_none(cs@, '\n');
            assert(l =~= cs@);
        }
        assert(l == first_line(version_output@));
    }
    // Its end, without trailing white space.
    let mut e: usize = n;
    while e > 0 && is_whitespace(cs[e - 1])
        invariant
            cs@ == version_output@,
            e <= n <= cs@.len(),
            l == cs@.subrange(0, n as int),
            trim_end_len(l, l.len() as int) == trim_end_len(l, e as int),
        decreases e,
    {
        assert(l[e - 1] == cs@[e - 1]);
        e = e - 1;
    }
    if e == 0 {
        return None;
    }
    proof {
        assert(l[e - 1] == cs@[e - 1]);
    }
    // The start of the last word.
    let mut b: usize = e;
    while b > 0 && !is_whitespace(cs[b - 1])
        invariant
            cs@ == version_output@,
            b <= e <= n <= cs@.len(),
            l == cs@.subrange(0, n as int),
            word_start(l, e as int) == word_start(l, b as int),
        decreases b,
    {
        assert(l[b - 1] == cs@[b - 1]);
        b = b - 1;
    }
    proof {
        if b > 0 {
            assert(l[b - 1] == cs@[b - 1]);
        }
        assert(l.subrange(b as int, e as int) =~= version_output@.subrange(b as int, e as int));
    }
    Some(version_output.substring_char(b, e))
}

// ---------------------------------------------------------------------------
// Comparing versions.
// ---------------------------------------------------------------------------

/// `str::trim_start_matches('v')`: without its leading `v`s.
pub open spec fn strip_vs(s: Seq<char>) -> Seq<char>
    decreases s.len(),
{
    if s.len() > 0 && s[0] == 'v' {
        strip_vs(s.drop_first())
    } else {
        s
    }
}

/// Every part parsed as a `u32`, or `None` if one does not parse.
pub open spec fn parse_all(parts: Seq<Seq<char>>) -> Option<Seq<u32>>
    decreases parts.len(),
{
    if parts.len() == 0 {
        Some(seq![])
    } else {
        match (parse_all(parts.drop_last()), parse_u32(parts.last())) {
            (Some(a), Some(x)) => Some(a.push(x)),
            _ => None,
        }
    }
}

/// The dotted numeric components of a version (`"v0.2.24"` → `[0, 2, 24]`),
/// after trimming white space and any leading `v`s.
pub open spec fn version_components(v: Seq<char>) -> Option<Seq<u32>> {
    match parse_all(split_on(strip_vs(trim(v)), '.')) {
        Some(p) => if p.len() > 0 {
            Some(p)
        } else {
            None
        },
        None => None,
    }
}

/// Component `i`, a missing one counting as zero.
pub open spec fn component(p: Seq<u32>, i: int) -> u32 {
    if 0 <= i < p.len() {
        p[i]
    } else {
        0
    }
}

/// From component `i` on, is `h` at least `w`?
pub open spec fn meets_from(h: Seq<u32>, w: Seq<u32>, i: int) -> bool
    decreases (if h.len() > w.len() { h.len() } else { w.len() }) - i,
{
    if i < 0 || (i >= h.len() && i >= w.len()) {
        true
    } else if component(h, i) != component(w, i) {
        component(h, i) > component(w, i)
    } else {
        meets_from(h, w, i + 1)
    }
}

/// `have` is at least `want`; unparseable versions never meet.
pub open spec fn meets(have: Seq<char>, want: Seq<char>) -> bool {
    match (version_components(have), version_components(want)) {
        (Some(h), Some(w)) => meets_from(h, w, 0),
        _ => false,
    }
}

fn parse_components(v: &str) -> (r: Option<Vec<u32>>)
    ensures
        r matches Some(p) ==> version_components(v@) == Some(p@),
        r is None ==> version_components(v@) is None,
{
    let cs = chars_of(v);
    let (b, e) = trim_bounds(&cs);
    let mut s: usize = b;
    let ghost t = trim(v@);
    proof {
        assert(t == cs@.subrange(b as int, e as int));
    }
    while s < e && cs[s] == 'v'
        invariant
            cs@ == v@,
            b <= s <= e <= cs@.len(),
            t == cs@.subrange(b as int, e as int),
            strip_vs(t) == strip_vs(cs@.subrange(s as int, e as int)),
        decreases e - s,
    {
        proof {
            let x = cs@.subrange(s as int, e as int);
            assert(x.drop_first() =~= cs@.subrange(s + 1, e as int));
        }
        s = s + 1;
    }
    let mut body: Vec<char> = Vec::new();
    let mut k: usize = s;
    while k < e
        invariant
            s <= k <= e <= cs@.len(),
            body@ == cs@.subrange(s as int, k as int),
        decreases e - k,
    {
        body.push(cs[k]);
        assert(body@ =~= cs@.subrange(s as int, k + 1));
        k = k + 1;
    }
    proof {
        assert(body@ == strip_vs(t));
    }
    let parts = split_chars(&body, '.');
    let ghost ps = split_on(body@, '.');
    let mut out: Vec<u32> = Vec::new();
    let mut i: usize = 0;
    while i < parts.len()
        invariant
            i <= parts@.len(),
            parts@.len() == ps.len(),
            forall|j: int| 0 <= j < parts@.len() ==> #[trigger] parts@[j]@ == ps[j],
            parse_all(ps.subrange(0, i as int)) == Some(out@),
            ps == split_on(strip_vs(trim(v@)), '.'),
        decreases parts@.len() - i,
    {
        let x = parse_u32_chars(&parts[i]);
        proof {
            assert(ps.subrange(0, i + 1).drop_last() =~= ps.subrange(0, i as int));
            assert(ps.subrange(0, i + 1).last() == parts@[i as int]@);
        }
        match x {
            Some(n) => out.push(n),
            None => {
                proof {
                    lemma_parse_all_none(ps, i as int);
                }
                return None;
            },
        }
        i = i + 1;
    }
    assert(ps.subrange(0, ps.len() as int) =~= ps);
    if out.len() == 0 {
        None
    } else {
        Some(out)
    }
}

proof fn lemma_parse_all_none(ps: Seq<Seq<char>>, i: int)
    requires
        0 <= i < ps.len(),
        parse_u32(ps[i]) is None,
    ensures
        parse_all(ps) is None,
    decreases ps.len(),
{
    if i < ps.len() - 1 {
        lemma_parse_all_none(ps.drop_last(), i);
    }
}

/// Is `have` at least `want`, comparing dotted numeric components (the
/// shorter padded with zeros)? Anything that does not parse as dotted
/// integers conservatively does not meet the pin, so an unrecognizable build
/// triggers a refetch of the known-good engine.
pub fn version_meets(have: &str, want: &str) -> (r: bool)
    ensures
        r == meets(have@, want@),
{
    let h = match parse_components(have) {
        Some(h) => h,
        None => return false,
    };
    let w = match parse_components(want) {
        Some(w) => w,
        None => return false,
    };
    let n = if h.len() > w.len() {
        h.len()
    } else {
        w.len()
    };
    let mut i: usize = 0;
    while i < n
        invariant
            n == (if h@.len() > w@.len() { h@.len() } else { w@.len() }),
            i <= n,
            meets_from(h@, w@, 0) == meets_from(h@, w@, i as int),
            version_components(have@) == Some(h@),
            version_components(want@) == Some(w@),
        decreases n - i,
    {
        let a = if i < h.len() {
            h[i]
        } else {
            0
        };
        let b = if i < w.len() {
            w[i]
        } else {
            0
        };
        assert(a == component(h@, i as int));
        assert(b == component(w@, i as int));
        if a != b {
            return a > b;
        }
        i = i + 1;
    }
    true
}

/// A version that parses meets itself.
pub proof fn law_version_meets_itself(v: Seq<char>)
    requires
        version_components(v) is Some,
    ensures
        meets(v, v),
{
    let p = version_components(v)->0;
    lemma_meets_self(p, 0);
}

proof fn lemma_meets_self(p: Seq<u32>, i: int)
    requires
        0 <= i,
    ensures
        meets_from(p, p, i),
    decreases p.len() - i,
{
    if i < p.len() {
        lemma_meets_self(p, i + 1);
    }
}

/// Of two versions that parse, one meets the other.
pub proof fn law_version_meets_total(a: Seq<char>, b: Seq<char>)
    requires
        version_components(a) is Some,
        version_components(b) is Some,
    ensures
        meets(a, b) || meets(b, a),
{
    lemma_meets_total(version_components(a)->0, version_components(b)->0, 0);
}

proof fn lemma_meets_total(h: Seq<u32>, w: Seq<u32>, i: int)
    requires
        0 <= i,
    ensures
        meets_from(h, w, i) || meets_from(w, h, i),
    decreases (if h.len() > w.len() { h.len() } else { w.len() }) - i,
{
    if !(i >= h.len() && i >= w.len()) && component(h, i) == component(w, i) {
        lemma_meets_total(h, w, i + 1);
    }
}

/// A version is at least another exactly when, padded with zeros, the two
/// agree up to some component where it is the greater one, or agree
/// everywhere: so meeting in both directions means equal once padded.
pub proof fn law_version_meets_antisymmetric(a: Seq<char>, b: Seq<char>)
    requires
        meets(a, b),
        meets(b, a),
    ensures
        forall|i: int|
            #![trigger component(version_components(a)->0, i)]
            0 <= i ==> component(version_components(a)->0, i) == component(
                version_components(b)->0,
                i,
            ),
{
    let h = version_components(a)->0;
    let w = version_components(b)->0;
    lemma_meets_antisymmetric(h, w, 0);
}

proof fn lemma_meets_antisymmetric(h: Seq<u32>, w: Seq<u32>, i: int)
    requires
        0 <= i,
        meets_from(h, w, i),
        meets_from(w, h, i),
    ensures
        forall|j: int| i <= j ==> #[trigger] component(h, j) == component(w, j),
    decreases (if h.len() > w.len() { h.len() } else { w.len() }) - i,
{
    if !(i >= h.len() && i >= w.len()) {
        lemma_meets_antisymmetric(h, w, i + 1);
    }
}

/// The longest of three component lists.
spec fn longest(a: Seq<u32>, b: Seq<u32>, c: Seq<u32>) -> int {
    let ab = if a.len() > b.len() { a.len() } else { b.len() };
    if ab > c.len() { ab as int } else { c.len() as int }
}

proof fn lemma_meets_equal_tail(h: Seq<u32>, w: Seq<u32>, i: int)
    requires
        0 <= i,
        forall|j: int| i <= j ==> #[trigger] component(h, j) == component(w, j),
    ensures
        meets_from(h, w, i),
    decreases (if h.len() > w.len() { h.len() } else { w.len() }) - i,
{
    if !(i >= h.len() && i >= w.len()) {
        assert(component(h, i) == component(w, i));
        lemma_meets_equal_tail(h, w, i + 1);
    }
}

proof fn lemma_meets_same_left(h: Seq<u32>, h2: Seq<u32>, w: Seq<u32>, i: int)
    requires
        0 <= i,
        forall|j: int| i <= j ==> #[trigger] component(h, j) == component(h2, j),
    ensures
        meets_from(h, w, i) == meets_from(h2, w, i),
    decreases longest(h, h2, w) - i,
{
    if i >= h.len() && i >= w.len() {
        assert forall|j: int| i <= j implies #[trigger] component(h2, j) == component(w, j) by {
            assert(component(h, j) == component(h2, j));
        }
        lemma_meets_equal_tail(h2, w, i);
    } else if i >= h2.len() && i >= w.len() {
        assert forall|j: int| i <= j implies #[trigger] component(h, j) == component(w, j) by {
            assert(component(h, j) == component(h2, j));
        }
        lemma_meets_equal_tail(h, w, i);
    } else {
        assert(component(h, i) == component(h2, i));
        lemma_meets_same_left(h, h2, w, i + 1);
    }
}

proof fn lemma_meets_same_right(h: Seq<u32>, w: Seq<u32>, w2: Seq<u32>, i: int)
    requires
        0 <= i,
        forall|j: int| i <= j ==> #[trigger] component(w, j) == component(w2, j),
    ensures
        meets_from(h, w, i) == meets_from(h, w2, i),
    decreases longest(h, w, w2) - i,
{
    if i >= h.len() && i >= w.len() {
        assert forall|j: int| i <= j implies #[trigger] component(h, j) == component(w2, j) by {
            assert(component(w, j) == component(w2, j));
        }
        lemma_meets_equal_tail(h, w2, i);
    } else if i >= h.len() && i >= w2.len() {
        assert forall|j: int| i <= j implies #[trigger] component(h, j) == component(w, j) by {
            assert(component(w, j) == component(w2, j));
        }
        lemma_meets_equal_tail(h, w, i);
    } else {
        assert(component(w, i) == component(w2, i));
        lemma_meets_same_right(h, w, w2, i + 1);
    }
}

proof fn lemma_meets_transitive(a: Seq<u32>, b: Seq<u32>, c: Seq<u32>, i: int)
    requires
        0 <= i,
        meets_from(a, b, i),
        meets_from(b, c, i),
    ensures
        meets_from(a, c, i),
    decreases longest(a, b, c) - i,
{
    if i >= a.len() && i >= c.len() {
    } else if i >= a.len() && i >= b.len() {
        lemma_meets_same_left(b, a, c, i);
    } else if i >= b.len() && i >= c.len() {
        lemma_meets_same_right(a, b, c, i);
    } else if component(a, i) == component(b, i) && component(b, i) == component(c, i) {
        lemma_meets_transitive(a, b, c, i + 1);
    }
}

/// Meeting a version is transitive: if `a` meets `b` and `b` meets `c`,
/// then `a` meets `c`.
pub proof fn law_version_meets_transitive(a: Seq<char>, b: Seq<char>, c: Seq<char>)
    requires
        meets(a, b),
        meets(b, c),
    ensures
        meets(a, c),
{
    lemma_meets_transitive(version_components(a)->0, version_components(b)->0, version_components(c)->0, 0);
}

// ---------------------------------------------------------------------------
// The release asset.
// ---------------------------------------------------------------------------

/// The release platform name for an OS/arch pair, or `None` for a target
/// with no prebuilt engine.
pub open spec fn platform_of(os: Seq<char>, arch: Seq<char>) -> Option<Seq<char>> {
    if os == "linux"@ && arch == "x86_64"@ {
        Some("linux-x86_64"@)
    } else if os == "linux"@ && arch == "aarch64"@ {
        Some("linux-aarch64"@)
    } else if os == "macos"@ && arch == "aarch64"@ {
        Some("macos-aarch64"@)
    } else if os == "macos"@ && arch == "x86_64"@ {
        Some("macos-x86_64"@)
    } else if os == "windows"@ && arch == "x86_64"@ {
        Some("windows-x86_64"@)
    } else {
        None
    }
}

/// MyOwnLLM's release platform name for an OS/arch pair (its release asset
/// names), or `None` for a target with no prebuilt engine.
pub fn release_platform(os: &str, arch: &str) -> (r: Option<&'static str>)
    ensures
        r matches Some(p) ==> platform_of(os@, arch@) == Some(p@),
        r is None ==> platform_of(os@, arch@) is None,
{
    if eq_str(os, "linux") && eq_str(arch, "x86_64") {
        Some("linux-x86_64")
    } else if eq_str(os, "linux") && eq_str(arch, "aarch64") {
        Some("linux-aarch64")
    } else if eq_str(os, "macos") && eq_str(arch, "aarch64") {
        Some("macos-aarch64")
    } else if eq_str(os, "macos") && eq_str(arch, "x86_64") {
        Some("macos-x86_64")
    } else if eq_str(os, "windows") && eq_str(arch, "x86_64") {
        Some("windows-x86_64")
    } else {
        None
    }
}

/// The archive extension: Windows ships a `.zip`, everything else `.tar.gz`.
pub open spec fn archive_ext(platform: Seq<char>) -> Seq<char> {
    if "windows"@.is_prefix_of(platform) {
        "zip"@
    } else {
        "tar.gz"@
    }
}

/// The download URL of the pinned engine asset.
pub open spec fn asset_url(tag: Seq<char>, platform: Seq<char>) -> Seq<char> {
    "https://github.com/mrjeeves/MyOwnLLM/releases/download/"@ + tag + "/myownllm-"@ + platform
        + "."@ + archive_ext(platform)
}

/// The GitHub release download URL for the pinned engine asset.
pub fn release_asset_url(tag: &str, platform: &str) -> (r: String)
    ensures
        r@ == asset_url(tag@, platform@),
{
    let ext = if crate::text::starts_with(platform, "windows") {
        "zip"
    } else {
        "tar.gz"
    };
    let mut url = String::from_str("https://github.com/mrjeeves/MyOwnLLM/releases/download/");
    url.append(tag);
    url.append("/myownllm-");
    url.append(platform);
    url.append(".");
    url.append(ext);
    url
}


// ---------------------------------------------------------------------------
// Fetching the pinned engine.
// ---------------------------------------------------------------------------

/// An engine lifecycle event for the model engine.
pub fn engine_event(status: &str, detail: Option<&str>) -> (r: crate::event::MyoEvent)
    ensures
        r@ == (crate::event::MyoEventV::Engine {
            name: "myownllm"@,
            status: status@,
            detail: match detail {
                Some(d) => Some(d@),
                None => None,
            },
        }),
{
    crate::event::MyoEvent::Engine {
        name: crate::text::owned("myownllm"),
        status: crate::text::owned(status),
        detail: match detail {
            Some(d) => Some(crate::text::owned(d)),
            None => None,
        },
    }
}

/// The file name the pinned engine is cached under: `myownllm-<pin>`, with
/// `.exe` on Windows.
pub open spec fn cached_engine_name(pin: Seq<char>, windows: bool) -> Seq<char> {
    "myownllm-"@ + pin + if windows { ".exe"@ } else { seq![] }
}

pub fn cached_engine_file(pin: &str, windows: bool) -> (r: String)
    ensures
        r@ == cached_engine_name(pin@, windows),
{
    let mut s = String::from_str("myownllm-");
    s.append(pin);
    if windows {
        s.append(".exe");
    } else {
        assert(s@ + Seq::<char>::empty() =~= s@);
    }
    s
}

/// Four bytes as a little-endian number.
pub open spec fn le_value(h: Seq<u8>) -> int {
    h[0] as int + 256 * h[1] as int + 65536 * h[2] as int + 16777216 * h[3] as int
}

/// Four bytes as a big-endian number.
pub open spec fn be_value(h: Seq<u8>) -> int {
    h[3] as int + 256 * h[2] as int + 65536 * h[1] as int + 16777216 * h[0] as int
}

/// A Mach-O (or fat binary) magic number.
pub open spec fn macho_magic(v: int) -> bool {
    v == 0xFEEDFACE || v == 0xFEEDFACF || v == 0xCAFEBABE || v == 0xBEBAFECA
}

/// Do the first four bytes look like an executable: PE (`MZ`), ELF, or
/// Mach-O in either byte order?
pub open spec fn executable_head(h: Seq<u8>) -> bool {
    (h[0] == 77 && h[1] == 90) || (h[0] == 0x7f && h[1] == 69 && h[2] == 76 && h[3] == 70)
        || macho_magic(le_value(h)) || macho_magic(be_value(h))
}

/// Why a fetched engine was refused.
#[derive(Debug, Clone, Copy, PartialEq, Eq, Structural)]
pub enum EngineProblem {
    /// Smaller than 1 MiB: a stub, not the engine.
    TooSmall,
    /// Its first bytes are no executable's.
    NotExecutable,
}

/// Check a fetched engine: at least 1 MiB, and an executable's first bytes.
pub fn check_executable(size: u64, head: &[u8; 4]) -> (r: Result<(), EngineProblem>)
    ensures
        size < 1048576 ==> r == Err::<(), EngineProblem>(EngineProblem::TooSmall),
        size >= 1048576 && executable_head(head@) ==> r is Ok,
        size >= 1048576 && !executable_head(head@) ==> r == Err::<(), EngineProblem>(EngineProblem::NotExecutable),
{
    if size < 1048576 {
        return Err(EngineProblem::TooSmall);
    }
    let h0 = head[0] as u64;
    let h1 = head[1] as u64;
    let h2 = head[2] as u64;
    let h3 = head[3] as u64;
    let le = h0 + 256 * h1 + 65536 * h2 + 16777216 * h3;
    let be = h3 + 256 * h2 + 65536 * h1 + 16777216 * h0;
    let magic = |v: u64| -> (m: bool)
        ensures
            m == macho_magic(v as int),
        { v == 0xFEEDFACE || v == 0xFEEDFACF || v == 0xCAFEBABE || v == 0xBEBAFECA };
    if (h0 == 77 && h1 == 90) || (h0 == 0x7f && h1 == 69 && h2 == 76 && h3 == 70) || magic(le) || magic(be) {
        Ok(())
    } else {
        Err(EngineProblem::NotExecutable)
    }
}

// ---------------------------------------------------------------------------
// Healing a stale engine up to the pin.
// ---------------------------------------------------------------------------

/// The pin in force: the build's pinned release tag, trimmed, when there is
/// one and it is not blank. Without a pin nothing is enforced.
pub open spec fn pin_in_force(rev: Option<Seq<char>>) -> Option<Seq<char>> {
    match rev {
        Some(r) => if trim(r).len() > 0 {
            Some(trim(r))
        } else {
            None
        },
        None => None,
    }
}

pub fn pin_of(rev: Option<&str>) -> (r: Option<String>)
    ensures
        crate::json::opt_view(r) == pin_in_force(match rev {
            Some(x) => Some(x@),
            None => None,
        }),
{
    match rev {
        Some(x) => {
            let t = crate::text::trimmed(x);
            if !t.as_str().is_empty() {
                Some(t)
            } else {
                None
            }
        },
        None => None,
    }
}

/// Does the resolved engine already satisfy the pin? An explicit engine
/// override is trusted; otherwise the version its `--version` printed
/// (absent when it could not be run or failed) must meet the pin.
pub open spec fn meets_pin(override_set: bool, version_output: Option<Seq<char>>, pin: Seq<char>) -> bool {
    override_set || match version_output {
        Some(out) => match version_token(out) {
            Some(have) => meets(have, pin),
            None => false,
        },
        None => false,
    }
}

pub fn candidate_meets_pin(override_set: bool, version_output: Option<&str>, pin: &str) -> (r: bool)
    ensures
        r == meets_pin(override_set, match version_output {
            Some(x) => Some(x@),
            None => None,
        }, pin@),
{
    if override_set {
        return true;
    }
    match version_output {
        Some(out) => match parse_version_token(out) {
            Some(have) => version_meets(have, pin),
            None => false,
        },
        None => false,
    }
}

/// What to do about the engine before spawning it.
#[derive(Debug, PartialEq)]
pub enum EnginePlan {
    /// Spawn the resolved engine as it is.
    UseCandidate,
    /// Spawn the pinned engine fetched on an earlier run.
    UseCached(String),
    /// Fetch the pin, announcing it with this event first.
    Fetch { pin: String, announce: crate::event::MyoEvent },
}

/// The announcement that the pinned engine is being fetched.
pub open spec fn updating_detail(pin: Seq<char>) -> Seq<char> {
    "the local MyOwnLLM is older than "@ + pin + " \u{2014} fetching the pinned engine\u{2026}"@
}

/// Decide how to reach an engine at the pin: no pin, or a candidate that
/// meets it, means the candidate; a cached copy of the pin is used next;
/// otherwise the pin is fetched.
pub fn plan_engine(pin: Option<&str>, candidate_meets: bool, cached: Option<&str>) -> (r: EnginePlan)
    ensures
        (pin is None || candidate_meets) ==> r == EnginePlan::UseCandidate,
        pin is Some && !candidate_meets && cached is Some ==> (r matches EnginePlan::UseCached(c) && c@ == cached->0@),
        pin is Some && !candidate_meets && cached is None ==> (r matches EnginePlan::Fetch { pin: p, announce: a }
            && p@ == pin->0@ && a@ == (crate::event::MyoEventV::Engine {
                name: "myownllm"@,
                status: "updating"@,
                detail: Some(updating_detail(pin->0@)),
            })),
{
    let p = match pin {
        Some(p) => p,
        None => return EnginePlan::UseCandidate,
    };
    if candidate_meets {
        return EnginePlan::UseCandidate;
    }
    if let Some(c) = cached {
        return EnginePlan::UseCached(crate::text::owned(c));
    }
    let mut d = String::from_str("the local MyOwnLLM is older than ");
    d.append(p);
    d.append(" \u{2014} fetching the pinned engine\u{2026}");
    let announce = engine_event("updating", Some(d.as_str()));
    EnginePlan::Fetch { pin: crate::text::owned(p), announce }
}

/// How fetching the pin ended.
#[derive(Debug, PartialEq)]
pub enum FetchEnd {
    /// Installed at this path.
    Fetched(String),
    /// The fetch failed with this error.
    Failed(String),
    /// The task running the fetch died with this error.
    TaskFailed(String),
}

/// The engine to spawn and the event that reports the fetch: the fetched
/// path on success, else the candidate (so startup still proceeds).
pub fn after_fetch(pin: &str, candidate: &str, end: FetchEnd) -> (r: (String, crate::event::MyoEvent))
    ensures
        match end {
            FetchEnd::Fetched(path) => r.0@ == path@ && r.1@ == (crate::event::MyoEventV::Engine {
                name: "myownllm"@,
                status: "updated"@,
                detail: Some("fetched MyOwnLLM "@ + pin@),
            }),
            FetchEnd::Failed(e) => r.0@ == candidate@ && r.1@ == (crate::event::MyoEventV::Engine {
                name: "myownllm"@,
                status: "update-failed"@,
                detail: Some("couldn't fetch MyOwnLLM "@ + pin@ + " ("@ + e@ + ") \u{2014} using the local copy for now"@),
            }),
            FetchEnd::TaskFailed(e) => r.0@ == candidate@ && r.1@ == (crate::event::MyoEventV::Engine {
                name: "myownllm"@,
                status: "update-failed"@,
                detail: Some("engine fetch task failed: "@ + e@),
            }),
        },
{
    match end {
        FetchEnd::Fetched(path) => {
            let mut d = String::from_str("fetched MyOwnLLM ");
            d.append(pin);
            let ev = engine_event("updated", Some(d.as_str()));
            (path, ev)
        },
        FetchEnd::Failed(e) => {
            let mut d = String::from_str("couldn't fetch MyOwnLLM ");
            d.append(pin);
            d.append(" (");
            d.append(e.as_str());
            d.append(") \u{2014} using the local copy for now");
            let ev = engine_event("update-failed", Some(d.as_str()));
            (crate::text::owned(candidate), ev)
        },
        FetchEnd::TaskFailed(e) => {
            let mut d = String::from_str("engine fetch task failed: ");
            d.append(e.as_str());
            let ev = engine_event("update-failed", Some(d.as_str()));
            (crate::text::owned(candidate), ev)
        },
    }
}

/// Where fetching the pin downloads from and what it lays down, all names
/// inside the engine cache directory.
#[derive(Debug, PartialEq)]
pub struct FetchPlan {
    /// The release asset to download.
    pub url: String,
    /// The scratch directory the archive is unpacked in.
    pub staging: String,
    /// The downloaded archive's name inside the scratch directory.
    pub archive: String,
    /// The unpacked binary's name inside the scratch directory.
    pub binary: String,
    /// The name the pinned engine is installed under.
    pub installed: String,
}

/// The error for a host with no prebuilt engine.
pub open spec fn no_prebuilt_text(os: Seq<char>, arch: Seq<char>) -> Seq<char> {
    "no prebuilt MyOwnLLM for "@ + os + "-"@ + arch
}

/// Plan fetching the pin for a host: refused when the host has no prebuilt
/// engine; Windows gets a `.zip` and `.exe` names, everything else a
/// `.tar.gz`.
pub fn fetch_plan(pin: &str, os: &str, arch: &str) -> (r: Result<FetchPlan, String>)
    ensures
        platform_of(os@, arch@) is None ==> (r matches Err(e) && e@ == no_prebuilt_text(os@, arch@)),
        platform_of(os@, arch@) matches Some(p) ==> (r matches Ok(f) && {
            let w = os@ == "windows"@;
            &&& f.url@ == asset_url(pin@, p)
            &&& f.staging@ == ".staging-"@ + pin@
            &&& f.archive@ == (if w { "engine.zip"@ } else { "engine.tar.gz"@ })
            &&& f.binary@ == "myownllm"@ + (if w { ".exe"@ } else { seq![] })
            &&& f.installed@ == cached_engine_name(pin@, w)
        }),
{
    let platform = match release_platform(os, arch) {
        Some(p) => p,
        None => {
            let mut e = String::from_str("no prebuilt MyOwnLLM for ");
            e.append(os);
            e.append("-");
            e.append(arch);
            return Err(e);
        },
    };
    let w = eq_str(os, "windows");
    let mut staging = String::from_str(".staging-");
    staging.append(pin);
    let archive = if w {
        String::from_str("engine.zip")
    } else {
        String::from_str("engine.tar.gz")
    };
    let mut binary = String::from_str("myownllm");
    if w {
        binary.append(".exe");
    } else {
        assert(binary@ + Seq::<char>::empty() =~= binary@);
    }
    Ok(FetchPlan {
        url: release_asset_url(pin, platform),
        staging,
        archive,
        binary,
        installed: cached_engine_file(pin, w),
    })
}

} // verus!
