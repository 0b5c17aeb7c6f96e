//! Engine supervision — *what* to launch and *how* to tell it is healthy: the
//! launch recipes, the private loopback ports, the internal-token minter,
//! whether the brain already knows the model engine, which programs to run,
//! and the steps and events of bringing each engine up. Spawning, killing,
//! probing and the token file live at the edge.
//!
//! Myo owns both engines on private ports — the brain on `:17000`, the model
//! engine on `:11473` — so it never attaches to a user's own or orphaned
//! instance.

use std::hash::{BuildHasher, Hasher};

use vstd::prelude::*;
use vstd::string::StringExecFns;

use crate::event::{MyoEvent, MyoEventV};
use crate::json::{Json, JsonV};
use crate::text::{chars_of, dec_digits, decimal, is_ws, owned, push_char, trim, trim_bounds};

verus! {

/// Myo's private brain port (not the usual `:7000`).
pub const ODYSSEUS_PORT: u16 = 17000;

/// Myo's private model-engine port (not the shared `:1473`).
pub const MYOWNLLM_PORT: u16 = 11473;

/// `http://127.0.0.1:<port>`.
pub open spec fn loopback_url(port: u16) -> Seq<char> {
    "http://127.0.0.1:"@ + dec_digits(port as nat)
}

fn loopback(port: u16) -> (r: String)
    ensures
        r@ == loopback_url(port),
{
    let mut s = String::from_str("http://127.0.0.1:");
    let d = decimal(port as u64);
    s.append(d.as_str());
    s
}

/// `http://127.0.0.1:17000` — Myo's owned brain URL.
pub fn odysseus_base_url() -> (r: String)
    ensures
        r@ == loopback_url(ODYSSEUS_PORT),
{
    loopback(ODYSSEUS_PORT)
}

/// `http://127.0.0.1:11473` — Myo's owned model-engine URL.
pub fn myownllm_base_url() -> (r: String)
    ensures
        r@ == loopback_url(MYOWNLLM_PORT),
{
    loopback(MYOWNLLM_PORT)
}

/// A launch recipe for one engine.
#[derive(Debug, Clone, PartialEq, Eq)]
pub struct EngineSpec {
    /// Engine id (`odysseus` / `myownllm`), also its `myo://engine` name.
    pub name: String,
    /// The program to run.
    pub program: String,
    /// Its arguments.
    pub args: Vec<String>,
    /// Extra environment variables for the child.
    pub env: Vec<(String, String)>,
    /// Working directory, if the engine needs one.
    pub cwd: Option<String>,
    /// The URL to poll for liveness.
    pub health_url: String,
}

pub open spec fn args_view(v: Seq<String>) -> Seq<Seq<char>> {
    Seq::new(v.len(), |i: int| v[i]@)
}

pub open spec fn env_view(v: Seq<(String, String)>) -> Seq<(Seq<char>, Seq<char>)> {
    Seq::new(v.len(), |i: int| (v[i].0@, v[i].1@))
}

/// The brain's launch arguments: `app:app --host 127.0.0.1 --port 17000`.
pub open spec fn odysseus_args() -> Seq<Seq<char>> {
    seq!["app:app"@, "--host"@, "127.0.0.1"@, "--port"@, dec_digits(ODYSSEUS_PORT as nat)]
}

/// The brain's environment: the internal token first, then auth on and the
/// in-process pollers and tasks off.
pub open spec fn odysseus_env(token: Seq<char>) -> Seq<(Seq<char>, Seq<char>)> {
    seq![
        ("ODYSSEUS_INTERNAL_TOKEN"@, token),
        ("AUTH_ENABLED"@, "true"@),
        ("ODYSSEUS_INPROCESS_POLLERS"@, "0"@),
        ("ODYSSEUS_INPROCESS_TASKS"@, "0"@),
    ]
}

/// The brain: `uvicorn app:app --host 127.0.0.1 --port 17000`, run from its
/// source tree, with the internal token in the environment before boot.
pub fn odysseus_spec(uvicorn: &str, cwd: &str, token: &str) -> (s: EngineSpec)
    ensures
        s.name@ == "odysseus"@,
        s.program@ == uvicorn@,
        args_view(s.args@) == odysseus_args(),
        env_view(s.env@) == odysseus_env(token@),
        s.cwd matches Some(c) && c@ == cwd@,
        s.health_url@ == loopback_url(ODYSSEUS_PORT) + "/api/health"@,
{
    let args = vec![
        owned("app:app"),
        owned("--host"),
        owned("127.0.0.1"),
        owned("--port"),
        decimal(ODYSSEUS_PORT as u64),
    ];
    assert(args_view(args@) =~= odysseus_args());
    let env = vec![
        (owned("ODYSSEUS_INTERNAL_TOKEN"), owned(token)),
        (owned("AUTH_ENABLED"), owned("true")),
        (owned("ODYSSEUS_INPROCESS_POLLERS"), owned("0")),
        (owned("ODYSSEUS_INPROCESS_TASKS"), owned("0")),
    ];
    assert(env_view(env@) =~= odysseus_env(token@));
    let mut health = odysseus_base_url();
    health.append("/api/health");
    EngineSpec {
        name: owned("odysseus"),
        program: owned(uvicorn),
        args,
        env,
        cwd: Some(owned(cwd)),
        health_url: health,
    }
}

/// The model engine's launch arguments: `serve --port 11473`.
pub open spec fn myownllm_args() -> Seq<Seq<char>> {
    seq!["serve"@, "--port"@, dec_digits(MYOWNLLM_PORT as nat)]
}

/// The model engine: `myownllm serve --port 11473`, liveness via `/healthz`.
pub fn myownllm_spec(program: &str) -> (s: EngineSpec)
    ensures
        s.name@ == "myownllm"@,
        s.program@ == program@,
        args_view(s.args@) == myownllm_args(),
        s.env@.len() == 0,
        s.cwd is None,
        s.health_url@ == loopback_url(MYOWNLLM_PORT) + "/healthz"@,
{
    let args = vec![owned("serve"), owned("--port"), decimal(MYOWNLLM_PORT as u64)];
    assert(args_view(args@) =~= myownllm_args());
    let mut health = myownllm_base_url();
    health.append("/healthz");
    EngineSpec {
        name: owned("myownllm"),
        program: owned(program),
        args,
        env: Vec::new(),
        cwd: None,
        health_url: health,
    }
}

// ---------------------------------------------------------------------------
// The internal token.
// ---------------------------------------------------------------------------

/// An ASCII hexadecimal digit, either case (`char::is_ascii_hexdigit`).
pub open spec fn is_hex(c: char) -> bool {
    ('0' <= c && c <= '9') || ('a' <= c && c <= 'f') || ('A' <= c && c <= 'F')
}

/// A lowercase ASCII hexadecimal digit.
pub open spec fn is_lower_hex(c: char) -> bool {
    ('0' <= c && c <= '9') || ('a' <= c && c <= 'f')
}

/// A token the brain accepts: 64 hexadecimal digits.
pub open spec fn valid_token(t: Seq<char>) -> bool {
    t.len() == 64 && forall|k: int| 0 <= k < t.len() ==> is_hex(#[trigger] t[k])
}

/// The lowercase hexadecimal digit for `d`.
pub open spec fn hex_char(d: nat) -> char {
    if d < 10 {
        (d + '0' as nat) as char
    } else {
        (d - 10 + 'a' as nat) as char
    }
}

/// The `n` low hexadecimal digits of `x`, most significant first
/// (`format!("{:0n$x}")` for a value below `16^n`).
pub open spec fn hex_digits(x: nat, n: nat) -> Seq<char>
    decreases n,
{
    if n == 0 {
        seq![]
    } else {
        hex_digits(x / 16, (n - 1) as nat).push(hex_char(x % 16))
    }
}

fn hex_digit(d: u64) -> (c: char)
    requires
        d < 16,
    ensures
        c == hex_char(d as nat),
        is_hex(c),
        is_lower_hex(c),
{
    if d < 10 {
        crate::text::digit_char(d)
    } else if d == 10 {
        'a'
    } else if d == 11 {
        'b'
    } else if d == 12 {
        'c'
    } else if d == 13 {
        'd'
    } else if d == 14 {
        'e'
    } else {
        'f'
    }
}

proof fn lemma_hex_digits(x: nat, n: nat)
    ensures
        hex_digits(x, n).len() == n,
        forall|k: int| 0 <= k < n ==> is_hex(#[trigger] hex_digits(x, n)[k]),
        forall|k: int| 0 <= k < n ==> is_lower_hex(#[trigger] hex_digits(x, n)[k]),
    decreases n,
{
    if n > 0 {
        lemma_hex_digits(x / 16, (n - 1) as nat);
        let d = x % 16;
        assert(is_hex(hex_char(d)) && is_lower_hex(hex_char(d))) by {
            if d < 10 {
            } else {
            }
        }
    }
}

/// The `n` low hexadecimal digits of `x`, most significant first.
fn hex_string(x: u64, n: usize) -> (r: String)
    ensures
        r@ == hex_digits(x as nat, n as nat),
    decreases n,
{
    if n == 0 {
        String::new()
    } else {
        let mut r = hex_string(x / 16, n - 1);
        push_char(&mut r, hex_digit(x % 16));
        r
    }
}

/// The current time in nanoseconds since the Unix epoch (`SystemTime::now`),
/// `0` when the clock is before 1970. Nothing is promised of the value.
#[verifier::external_body]
fn now_nanos() -> u64 {
    std::time::SystemTime::now().duration_since(std::time::UNIX_EPOCH).map(|d| d.as_nanos() as u64).unwrap_or(0)
}

/// Hash `i` and `salt` with a fresh `RandomState` hasher, whose keys come
/// from the platform's random source. Nothing is promised of the value.
#[verifier::external_body]
fn seeded_word(i: u64, salt: u64) -> u64 {
    let mut h = std::collections::hash_map::RandomState::new().build_hasher();
    h.write_u64(i);
    h.write_u64(salt);
    h.finish()
}

/// The token four words make: each written as 16 lowercase hexadecimal
/// digits (`{:016x}`), in order.
pub open spec fn token_of(words: Seq<u64>) -> Seq<char>
    decreases words.len(),
{
    if words.len() == 0 {
        seq![]
    } else {
        token_of(words.drop_last()) + hex_digits(words.last() as nat, 16)
    }
}

proof fn lemma_token_of(words: Seq<u64>)
    ensures
        token_of(words).len() == 16 * words.len(),
        forall|k: int| 0 <= k < token_of(words).len() ==> is_lower_hex(#[trigger] token_of(words)[k]),
        forall|k: int| 0 <= k < token_of(words).len() ==> is_hex(#[trigger] token_of(words)[k]),
    decreases words.len(),
{
    if words.len() > 0 {
        lemma_token_of(words.drop_last());
        lemma_hex_digits(words.last() as nat, 16);
        let a = token_of(words.drop_last());
        let b = hex_digits(words.last() as nat, 16);
        assert forall|k: int| 0 <= k < token_of(words).len() implies is_lower_hex(#[trigger] token_of(words)[k]) && is_hex(token_of(words)[k]) by {
            if k >= a.len() {
                assert(token_of(words)[k] == b[k - a.len()]);
            } else {
                assert(token_of(words)[k] == a[k]);
            }
        }
    }
}

/// Write four drawn words as a token: 64 lowercase hexadecimal digits.
pub fn token_from_words(words: [u64; 4]) -> (r: String)
    ensures
        r@ == token_of(words@),
        valid_token(r@),
        forall|k: int| 0 <= k < r@.len() ==> is_lower_hex(#[trigger] r@[k]),
{
    let mut out = String::new();
    let mut i: usize = 0;
    while i < 4
        invariant
            i <= 4,
            words@.len() == 4,
            out@ == token_of(words@.subrange(0, i as int)),
        decreases 4 - i,
    {
        let part = hex_string(words[i], 16);
        proof {
            assert(words@.subrange(0, i + 1).drop_last() =~= words@.subrange(0, i as int));
        }
        out.append(part.as_str());
        i = i + 1;
    }
    assert(words@.subrange(0, 4) =~= words@);
    proof {
        lemma_token_of(words@);
    }
    out
}

/// Mint a brain internal token: four OS-seeded 64-bit words (each hashing
/// its position and the current time), written as a token. The words are
/// drawn by chance, so only the token's shape is promised.
pub fn random_token() -> (r: String)
    ensures
        valid_token(r@),
        forall|k: int| 0 <= k < r@.len() ==> is_lower_hex(#[trigger] r@[k]),
        exists|ws: Seq<u64>| ws.len() == 4 && r@ == token_of(ws),
{
    let w0 = seeded_word(0, now_nanos());
    let w1 = seeded_word(1, now_nanos());
    let w2 = seeded_word(2, now_nanos());
    let w3 = seeded_word(3, now_nanos());
    let words = [w0, w1, w2, w3];
    let r = token_from_words(words);
    assert(words@.len() == 4);
    r
}

/// Is `t` a token the brain accepts?
pub fn is_valid_token(t: &str) -> (r: bool)
    ensures
        r == valid_token(t@),
{
    let cs = chars_of(t);
    if cs.len() != 64 {
        return false;
    }
    let mut i: usize = 0;
    while i < cs.len()
        invariant
            cs@ == t@,
            i <= cs@.len(),
            forall|k: int| 0 <= k < i ==> is_hex(#[trigger] cs@[k]),
        decreases cs@.len() - i,
    {
        let c = cs[i];
        if !(('0' <= c && c <= '9') || ('a' <= c && c <= 'f') || ('A' <= c && c <= 'F')) {
            assert(!is_hex(t@[i as int]));
            return false;
        }
        i = i + 1;
    }
    true
}

/// The stored token, trimmed, if it is valid.
pub open spec fn stored_token(stored: Option<&str>) -> Option<Seq<char>> {
    match stored {
        Some(s) => if valid_token(trim(s@)) {
            Some(trim(s@))
        } else {
            None
        },
        None => None,
    }
}

/// Myo's persisted internal token, given what the token file held (`None`
/// when it could not be read): the stored token, trimmed, when it is valid —
/// reusing it is what lets a brain left running from an earlier launch
/// authenticate — otherwise a freshly minted one, with `true` to say it must
/// be saved.
pub fn persistent_token(stored: Option<&str>) -> (r: (String, bool))
    ensures
        valid_token(r.0@),
        match stored_token(stored) {
            Some(t) => r.0@ == t && !r.1,
            None => r.1,
        },
{
    if let Some(s) = stored {
        let cs = chars_of(s);
        let (b, e) = trim_bounds(&cs);
        let t = crate::text::string_of(&cs.as_slice()[b..e]);
        proof {
            assert(cs@.subrange(b as int, e as int) == trim(s@));
        }
        if is_valid_token(t.as_str()) {
            return (t, false);
        }
    }
    (random_token(), true)
}

/// A token saved by an earlier launch is reused as it is: reading back a
/// valid token yields that very token, so a brain left running from before
/// still authenticates.
pub proof fn law_saved_token_is_reused(t: &str)
    requires
        valid_token(t@),
    ensures
        stored_token(Some(t)) == Some(t@),
{
    let s = t@;
    assert(!is_ws(s[0]));
    assert(!is_ws(s[s.len() - 1]));
    assert(crate::text::lead_ws(s) == 0);
    assert(crate::text::trim_end_len(s, s.len() as int) == s.len());
    assert(trim(s) =~= s);
}

// ---------------------------------------------------------------------------
// Is the model engine registered with the brain?
// ---------------------------------------------------------------------------

pub open spec fn is_ascii_digit(c: char) -> bool {
    '0' <= c && c <= '9'
}

/// `:<port>` occurs in `url` as a whole segment — followed by the end or by
/// anything but a digit — so `:1473` does not match `:14730`.
pub open spec fn has_port(url: Seq<char>, port: u16) -> bool {
    let needle = ":"@ + dec_digits(port as nat);
    exists|i: int|
        0 <= i && i + needle.len() <= url.len() && #[trigger] url.subrange(i, i + needle.len())
            == needle && (i + needle.len() == url.len() || !is_ascii_digit(url[i + needle.len()]))
}

/// Does `url` use exactly `port`?
pub fn url_has_port(url: &str, port: u16) -> (r: bool)
    ensures
        r == has_port(url@, port),
{
    let mut needle_s = String::from_str(":");
    let d = decimal(port as u64);
    needle_s.append(d.as_str());
    let needle = chars_of(needle_s.as_str());
    let u = chars_of(url);
    let ghost nd = ":"@ + dec_digits(port as nat);
    assert(needle@ == nd);
    if needle.len() > u.len() {
        return false;
    }
    let last = u.len() - needle.len();
    let mut i: usize = 0;
    while i <= last
        invariant
            u@ == url@,
            needle@ == nd,
            nd == ":"@ + dec_digits(port as nat),
            needle@.len() <= u@.len(),
            u@.len() <= usize::MAX,
            last == u@.len() - needle@.len(),
            i <= last + 1,
            forall|j: int|
                0 <= j < i ==> !(#[trigger] u@.subrange(j, j + nd.len()) == nd && (j + nd.len()
                    == u@.len() || !is_ascii_digit(u@[j + nd.len()]))),
        decreases last + 1 - i,
    {
        let mut k: usize = 0;
        while k < needle.len() && u[i + k] == needle[k]
            invariant
                u@ == url@,
                needle@ == nd,
                i <= last,
                last == u@.len() - needle@.len(),
                i + needle@.len() <= u@.len(),
                u@.len() <= usize::MAX,
                k <= needle@.len(),
                forall|m: int| 0 <= m < k ==> u@[i + m] == needle@[m],
            decreases needle@.len() - k,
        {
            k = k + 1;
        }
        if k == needle.len() {
            let end = i + needle.len();
            assert(u@.subrange(i as int, end as int) =~= nd);
            if end == u.len() || !('0' <= u[end] && u[end] <= '9') {
                assert(url@.subrange(i as int, i + nd.len()) == nd);
                return true;
            }
        } else {
            assert(u@.subrange(i as int, i + nd.len())[k as int] != nd[k as int]);
        }
        assert(!(u@.subrange(i as int, i + nd.len()) == nd && (i + nd.len() == u@.len()
            || !is_ascii_digit(u@[i + nd.len()]))));
        if i == last {
            assert forall|j: int|
                0 <= j && j + nd.len() <= url@.len() implies !(#[trigger] url@.subrange(j, j + nd.len()) == nd && (j + nd.len()
                    == url@.len() || !is_ascii_digit(url@[j + nd.len()]))) by {
                assert(j <= i);
            }
            return false;
        }
        i = i + 1;
    }
    false
}

/// An endpoint whose `base_url` uses `port`.
pub open spec fn endpoint_on_port(e: JsonV, port: u16) -> bool {
    match e.str_member("base_url"@) {
        Some(u) => has_port(u, port),
        None => false,
    }
}

/// Does the brain's endpoint list (`[{base_url: …}, …]`) already include one
/// on the model engine's port? Anything that is not a list includes none.
pub open spec fn endpoints_include(existing: JsonV, port: u16) -> bool {
    match existing {
        JsonV::Array(eps) => exists|i: int| 0 <= i < eps.len() && endpoint_on_port(#[trigger] eps[i], port),
        _ => false,
    }
}

/// Is Myo's model engine already registered with the brain? When not, the
/// edge registers [`myownllm_base_url`] (the first endpoint becomes the
/// brain's default).
pub fn myownllm_registered(existing: &Json) -> (r: bool)
    ensures
        r == endpoints_include(existing@, MYOWNLLM_PORT),
{
    match existing {
        Json::Array(eps) => {
            let mut i: usize = 0;
            while i < eps.len()
                invariant
                    *existing == Json::Array(*eps),
                    i <= eps@.len(),
                    forall|j: int|
                        0 <= j < i ==> !endpoint_on_port(#[trigger] existing@->Array_0[j], MYOWNLLM_PORT),
                decreases eps@.len() - i,
            {
                assert(existing@->Array_0[i as int] == eps@[i as int]@);
                if let Some(u) = eps[i].get_str("base_url") {
                    if url_has_port(u, MYOWNLLM_PORT) {
                        return true;
                    }
                }
                i = i + 1;
            }
            false
        },
        _ => false,
    }
}

// ---------------------------------------------------------------------------
// Where the engine programs are.
// ---------------------------------------------------------------------------

/// The names the bundled model-engine sidecar may have next to the Myo
/// executable, in the order they are tried: the development build's
/// `myownllm-<triple>` first, then the packaged `myownllm` (`.exe` on
/// Windows).
pub open spec fn sidecar_names(triple: Seq<char>, windows: bool) -> Seq<Seq<char>> {
    let sfx = if windows { ".exe"@ } else { seq![] };
    seq!["myownllm-"@ + triple + sfx, "myownllm"@ + sfx]
}

pub fn sidecar_candidates(triple: &str, windows: bool) -> (r: Vec<String>)
    ensures
        r@.len() == 2,
        r@[0]@ == sidecar_names(triple@, windows)[0],
        r@[1]@ == sidecar_names(triple@, windows)[1],
{
    let mut dev = owned("myownllm-");
    dev.append(triple);
    let mut packaged = owned("myownllm");
    if windows {
        dev.append(".exe");
        packaged.append(".exe");
    } else {
        assert(dev@ + Seq::<char>::empty() =~= dev@);
        assert(packaged@ + Seq::<char>::empty() =~= packaged@);
    }
    vec![dev, packaged]
}

/// The first sidecar that exists and is not empty (a zero-byte stub marks a
/// build that could not bundle the engine), by index.
pub open spec fn first_real(sizes: Seq<Option<u64>>) -> Option<int>
    decreases sizes.len(),
{
    if sizes.len() == 0 {
        None
    } else if sizes[0] matches Some(n) && n > 0 {
        Some(0)
    } else {
        match first_real(sizes.drop_first()) {
            Some(i) => Some(i + 1),
            None => None,
        }
    }
}

/// The model engine to run: an explicit override wins, then the first real
/// sidecar found (its path given with its size, or no size when it is
/// missing), then `myownllm` on `PATH`.
pub open spec fn engine_program(override_path: Option<Seq<char>>, sidecars: Seq<(Seq<char>, Option<u64>)>) -> Seq<char> {
    match override_path {
        Some(p) => p,
        None => match first_real(Seq::new(sidecars.len(), |i: int| sidecars[i].1)) {
            Some(i) => sidecars[i].0,
            None => "myownllm"@,
        },
    }
}

pub fn resolve_engine_program(override_path: Option<&str>, sidecars: &[(String, Option<u64>)]) -> (r: String)
    ensures
        r@ == engine_program(match override_path {
            Some(p) => Some(p@),
            None => None,
        }, Seq::new(sidecars@.len(), |i: int| (sidecars@[i].0@, sidecars@[i].1))),
{
    if let Some(p) = override_path {
        return owned(p);
    }
    let ghost sv = Seq::new(sidecars@.len(), |i: int| (sidecars@[i].0@, sidecars@[i].1));
    let ghost sizes = Seq::new(sv.len(), |i: int| sv[i].1);
    let mut k: usize = 0;
    assert(sizes.subrange(0, sizes.len() as int) =~= sizes);
    while k < sidecars.len()
        invariant
            override_path is None,
            k <= sidecars@.len(),
            sv == Seq::new(sidecars@.len(), |i: int| (sidecars@[i].0@, sidecars@[i].1)),
            sizes == Seq::new(sv.len(), |i: int| sv[i].1),
            first_real(sizes) == match first_real(sizes.subrange(k as int, sizes.len() as int)) {
                Some(i) => Some(i + k),
                None => None::<int>,
            },
        decreases sidecars@.len() - k,
    {
        let ghost rest = sizes.subrange(k as int, sizes.len() as int);
        assert(rest[0] == sizes[k as int]);
        assert(rest.drop_first() =~= sizes.subrange(k + 1, sizes.len() as int));
        match sidecars[k].1 {
            Some(n) => if n > 0 {
                assert(first_real(sizes) == Some(k as int));
                assert(Seq::new(sv.len(), |i: int| sv[i].1) =~= sizes);
                assert(sv[k as int].0 == sidecars@[k as int].0@);
                return owned(sidecars[k].0.as_str());
            },
            None => {},
        }
        k = k + 1;
    }
    assert(sizes.subrange(k as int, sizes.len() as int) =~= Seq::<Option<u64>>::empty());
    assert(Seq::new(sv.len(), |i: int| sv[i].1) =~= sizes);
    owned("myownllm")
}

/// The uvicorn to run the brain under: an explicit override, else the
/// managed virtual environment's when it exists, else `uvicorn` on `PATH`.
pub fn resolve_uvicorn(override_path: Option<&str>, managed: Option<&str>) -> (r: String)
    ensures
        override_path matches Some(p) ==> r@ == p@,
        override_path is None ==> (managed matches Some(m) ==> r@ == m@),
        override_path is None && managed is None ==> r@ == "uvicorn"@,
{
    match override_path {
        Some(p) => owned(p),
        None => match managed {
            Some(m) => owned(m),
            None => owned("uvicorn"),
        },
    }
}

// ---------------------------------------------------------------------------
// Bringing one engine up.
// ---------------------------------------------------------------------------

/// The two engines Myo brings up.
#[derive(Debug, Clone, Copy, PartialEq, Eq, Structural)]
pub enum Engine {
    /// The brain (Odysseus).
    Odysseus,
    /// The model engine (MyOwnLLM).
    MyOwnLlm,
}

pub open spec fn engine_name(e: Engine) -> Seq<char> {
    match e {
        Engine::Odysseus => "odysseus"@,
        Engine::MyOwnLlm => "myownllm"@,
    }
}

/// Where bringing an engine up stands.
#[derive(Debug, Clone, Copy, PartialEq, Eq, Structural)]
pub enum StartPhase {
    /// Asking whether it already serves.
    Probing,
    /// Finding its program (and, for the model engine, healing it to the pin).
    Locating,
    /// Spawning it.
    Spawning,
    /// Waiting for it to report healthy.
    Waiting,
    /// Done, one way or another.
    Finished,
}

/// What the edge learned.
#[derive(Debug)]
pub enum StartEvent {
    /// Whether it already serves.
    Probed(bool),
    /// Whether its program was found (the model engine always has one,
    /// falling back to `myownllm` on `PATH`).
    Located(bool),
    /// Whether the spawn succeeded, with the error when not.
    Spawned(Result<(), String>),
    /// Whether it became healthy before the deadline.
    Waited(bool),
}

pub enum StartEventV {
    Probed(bool),
    Located(bool),
    Spawned(Result<(), Seq<char>>),
    Waited(bool),
}

impl StartEvent {
    pub open spec fn view(&self) -> StartEventV {
        match self {
            StartEvent::Probed(b) => StartEventV::Probed(*b),
            StartEvent::Located(b) => StartEventV::Located(*b),
            StartEvent::Spawned(Ok(())) => StartEventV::Spawned(Ok(())),
            StartEvent::Spawned(Err(e)) => StartEventV::Spawned(Err(e@)),
            StartEvent::Waited(b) => StartEventV::Waited(*b),
        }
    }
}

/// A lifecycle event for one engine.
pub open spec fn status_event(e: Engine, status: Seq<char>, detail: Option<Seq<char>>) -> MyoEventV {
    MyoEventV::Engine { name: engine_name(e), status: status, detail: detail }
}

/// The event that opens bringing an engine up.
pub open spec fn checking_event(e: Engine) -> MyoEventV {
    status_event(e, "checking"@, None)
}

/// One step of bringing an engine up: the events to emit and the phase
/// after. An already-serving engine is left alone; a brain whose source is
/// missing is unavailable; a failed spawn is an error; an engine that never
/// reports healthy timed out. An event that does not fit the phase changes
/// nothing.
pub open spec fn start_step(e: Engine, phase: StartPhase, ev: StartEventV) -> (Seq<MyoEventV>, StartPhase) {
    match (phase, ev) {
        (StartPhase::Probing, StartEventV::Probed(true)) => (seq![status_event(e, "healthy"@, None)], StartPhase::Finished),
        (StartPhase::Probing, StartEventV::Probed(false)) => (seq![], StartPhase::Locating),
        (StartPhase::Locating, StartEventV::Located(found)) => if found || e == Engine::MyOwnLlm {
            (seq![status_event(e, "starting"@, None)], StartPhase::Spawning)
        } else {
            (seq![status_event(e, "unavailable"@, Some("Odysseus source not found \u{2014} set MYO_ODYSSEUS_DIR to its checkout"@))], StartPhase::Finished)
        },
        (StartPhase::Spawning, StartEventV::Spawned(Ok(()))) => (seq![], StartPhase::Waiting),
        (StartPhase::Spawning, StartEventV::Spawned(Err(msg))) => (seq![status_event(e, "error"@, Some(msg))], StartPhase::Finished),
        (StartPhase::Waiting, StartEventV::Waited(true)) => (seq![status_event(e, "healthy"@, None)], StartPhase::Finished),
        (StartPhase::Waiting, StartEventV::Waited(false)) => (seq![status_event(e, "timeout"@, Some(match e {
            Engine::Odysseus => "did not become healthy in time"@,
            Engine::MyOwnLlm => "did not start serving in time"@,
        }))], StartPhase::Finished),
        _ => (seq![], phase),
    }
}

fn status_exec(e: Engine, status: &str, detail: Option<&str>) -> (r: MyoEvent)
    ensures
        r@ == status_event(e, status@, match detail {
            Some(d) => Some(d@),
            None => None,
        }),
{
    let name = match e {
        Engine::Odysseus => owned("odysseus"),
        Engine::MyOwnLlm => owned("myownllm"),
    };
    MyoEvent::Engine {
        name,
        status: owned(status),
        detail: match detail {
            Some(d) => Some(owned(d)),
            None => None,
        },
    }
}

/// Bringing one engine up, as the edge probes, locates, spawns and waits.
pub struct EngineStart {
    engine: Engine,
    phase: StartPhase,
}

impl EngineStart {
    pub closed spec fn which(&self) -> Engine {
        self.engine
    }

    pub closed spec fn phase(&self) -> StartPhase {
        self.phase
    }

    /// Start bringing an engine up: the `checking` event, then a probe.
    pub fn begin(engine: Engine) -> (r: (EngineStart, MyoEvent))
        ensures
            r.0.which() == engine,
            r.0.phase() == StartPhase::Probing,
            r.1@ == checking_event(engine),
    {
        (EngineStart { engine, phase: StartPhase::Probing }, status_exec(engine, "checking", None))
    }

    /// Where it stands.
    pub fn current(&self) -> (r: StartPhase)
        ensures
            r == self.phase(),
    {
        self.phase
    }

    /// Take in what the edge learned; returns the events to emit.
    pub fn on_event(&mut self, ev: StartEvent) -> (r: Vec<MyoEvent>)
        ensures
            final(self).which() == old(self).which(),
            crate::event::events_view(r@) == start_step(old(self).which(), old(self).phase(), ev.view()).0,
            final(self).phase() == start_step(old(self).which(), old(self).phase(), ev.view()).1,
    {
        let e = self.engine;
        let ghost evv = ev.view();
        let (out, next) = match (self.phase, ev) {
            (StartPhase::Probing, StartEvent::Probed(true)) => (vec![status_exec(e, "healthy", None)], StartPhase::Finished),
            (StartPhase::Probing, StartEvent::Probed(false)) => (Vec::new(), StartPhase::Locating),
            (StartPhase::Locating, StartEvent::Located(found)) => if found || e == Engine::MyOwnLlm {
                (vec![status_exec(e, "starting", None)], StartPhase::Spawning)
            } else {
                (vec![status_exec(e, "unavailable", Some("Odysseus source not found \u{2014} set MYO_ODYSSEUS_DIR to its checkout"))], StartPhase::Finished)
            },
            (StartPhase::Spawning, StartEvent::Spawned(Ok(()))) => (Vec::new(), StartPhase::Waiting),
            (StartPhase::Spawning, StartEvent::Spawned(Err(msg))) => (vec![status_exec(e, "error", Some(msg.as_str()))], StartPhase::Finished),
            (StartPhase::Waiting, StartEvent::Waited(true)) => (vec![status_exec(e, "healthy", None)], StartPhase::Finished),
            (StartPhase::Waiting, StartEvent::Waited(false)) => {
                let d = match e {
                    Engine::Odysseus => "did not become healthy in time",
                    Engine::MyOwnLlm => "did not start serving in time",
                };
                (vec![status_exec(e, "timeout", Some(d))], StartPhase::Finished)
            },
            (p, _) => (Vec::new(), p),
        };
        self.phase = next;
        proof {
            let sv = start_step(e, old(self).phase, evv);
            assert(crate::event::events_view(out@) =~= sv.0);
        }
        out
    }
}

/// Once bringing an engine up has finished, nothing more happens; and the
/// step that finishes it emits exactly one event, whose status says how it
/// ended: healthy, unavailable, error or timeout.
pub proof fn law_a_start_ends_once(e: Engine, phase: StartPhase, ev: StartEventV)
    ensures
        phase == StartPhase::Finished ==> start_step(e, phase, ev) == (Seq::<MyoEventV>::empty(), StartPhase::Finished),
        phase != StartPhase::Finished && start_step(e, phase, ev).1 == StartPhase::Finished ==> {
            let evs = start_step(e, phase, ev).0;
            &&& evs.len() == 1
            &&& evs[0] matches MyoEventV::Engine { name, status, detail }
            &&& name == engine_name(e)
            &&& (status == "healthy"@ || status == "unavailable"@ || status == "error"@ || status == "timeout"@)
        },
{
}

/// What registering the model engine with the brain is reported as: `ready`
/// (saying whether this call registered it or found it already there), or
/// the error.
pub fn registration_event(result: Result<bool, String>) -> (r: MyoEvent)
    ensures
        r@ == match result {
            Ok(true) => MyoEventV::Engine { name: "model"@, status: "ready"@, detail: Some("registered MyOwnLLM as the default endpoint"@) },
            Ok(false) => MyoEventV::Engine { name: "model"@, status: "ready"@, detail: Some("MyOwnLLM already registered"@) },
            Err(e) => MyoEventV::Engine { name: "model"@, status: "error"@, detail: Some(e@) },
        },
{
    match result {
        Ok(true) => MyoEvent::Engine { name: owned("model"), status: owned("ready"), detail: Some(owned("registered MyOwnLLM as the default endpoint")) },
        Ok(false) => MyoEvent::Engine { name: owned("model"), status: owned("ready"), detail: Some(owned("MyOwnLLM already registered")) },
        Err(e) => MyoEvent::Engine { name: owned("model"), status: owned("error"), detail: Some(e) },
    }
}

} // verus!
