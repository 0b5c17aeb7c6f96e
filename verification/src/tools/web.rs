//! The `web_search` tool's logic: reading DuckDuckGo's HTML results page and
//! a SearXNG JSON reply into [`Hit`]s, the small HTML helpers that takes, and
//! the text the model reads back. Fetching the pages happens at the edge.

use vstd::prelude::*;
use vstd::string::{StringSliceAdditionalSpecFns, StringExecFns};

use crate::json::{Json, JsonV};
use crate::sse::{decode_lossy, utf8_lossy};
use crate::text::{
    chars_of, find, find_exec, find_from, first_index, lemma_find_from_bounds, owned,
    replace_all, replace_chars, string_of, trim, trim_bounds, decimal, dec_digits,
};

verus! {

/// One search result.
#[derive(Debug, Clone, PartialEq)]
pub struct Hit {
    pub title: String,
    pub url: String,
    pub snippet: String,
}

/// The texts of a [`Hit`].
pub struct HitV {
    pub title: Seq<char>,
    pub url: Seq<char>,
    pub snippet: Seq<char>,
}

impl View for Hit {
    type V = HitV;

    open spec fn view(&self) -> HitV {
        HitV { title: self.title@, url: self.url@, snippet: self.snippet@ }
    }
}

pub open spec fn hits_view(v: Seq<Hit>) -> Seq<HitV> {
    Seq::new(v.len(), |i: int| v[i]@)
}

// ---------------------------------------------------------------------------
// Percent-decoding.
// ---------------------------------------------------------------------------

/// The value of an ASCII hexadecimal digit byte.
pub open spec fn hex_val(b: u8) -> Option<u8> {
    if 48 <= b <= 57 {
        Some((b - 48) as u8)
    } else if 97 <= b <= 102 {
        Some((b - 87) as u8)
    } else if 65 <= b <= 70 {
        Some((b - 55) as u8)
    } else {
        None
    }
}

/// Percent-decoding over bytes: `%XX` with two hexadecimal digits becomes
/// that byte, `+` a space; anything else, an invalid escape included, stays.
pub open spec fn pct_decode(b: Seq<u8>) -> Seq<u8>
    decreases b.len(),
{
    if b.len() == 0 {
        seq![]
    } else if b[0] == 37 && 2 < b.len() && hex_val(b[1]) is Some && hex_val(b[2]) is Some {
        seq![(hex_val(b[1])->0 * 16 + hex_val(b[2])->0) as u8] + pct_decode(b.subrange(3, b.len() as int))
    } else if b[0] == 43 {
        seq![32u8] + pct_decode(b.drop_first())
    } else {
        seq![b[0]] + pct_decode(b.drop_first())
    }
}

fn hex_val_exec(b: u8) -> (r: Option<u8>)
    ensures
        r == hex_val(b),
{
    if 48 <= b && b <= 57 {
        Some(b - 48)
    } else if 97 <= b && b <= 102 {
        Some(b - 87)
    } else if 65 <= b && b <= 70 {
        Some(b - 55)
    } else {
        None
    }
}

/// Minimal percent-decoding (`%XX` → byte, `+` → space), enough for a
/// wrapped result URL; invalid escapes are left as they are, and the bytes
/// are read back as UTF-8 with invalid sequences replaced.
pub fn percent_decode(s: &str) -> (r: String)
    ensures
        r@ == utf8_lossy(pct_decode(s.spec_bytes())),
{
    let bytes = s.as_bytes();
    let blen = bytes.len();
    let mut out: Vec<u8> = Vec::new();
    let mut i: usize = 0;
    let ghost b = s.spec_bytes();
    assert(b.subrange(0, b.len() as int) =~= b);
    while i < bytes.len()
        invariant
            b == s.spec_bytes(),
            bytes@ == b,
            b.len() <= usize::MAX,
            i <= b.len(),
            pct_decode(b) == out@ + pct_decode(b.subrange(i as int, b.len() as int)),
        decreases b.len() - i,
    {
        let ghost rest = b.subrange(i as int, b.len() as int);
        let ghost before = out@;
        let c = bytes[i];
        if c == 37 && bytes.len() - i > 2 {
            let hi = hex_val_exec(bytes[i + 1]);
            let lo = hex_val_exec(bytes[i + 2]);
            if let (Some(h), Some(l)) = (hi, lo) {
                out.push(h * 16 + l);
                assert(rest.subrange(3, rest.len() as int) =~= b.subrange(i + 3, b.len() as int));
                assert(out@ + pct_decode(b.subrange(i + 3, b.len() as int)) =~= before + pct_decode(rest));
                i = i + 3;
                continue;
            }
            out.push(37);
            assert(rest.drop_first() =~= b.subrange(i + 1, b.len() as int));
            assert(out@ + pct_decode(b.subrange(i + 1, b.len() as int)) =~= before + pct_decode(rest));
            i = i + 1;
        } else if c == 43 {
            out.push(32);
            assert(rest.drop_first() =~= b.subrange(i + 1, b.len() as int));
            assert(out@ + pct_decode(b.subrange(i + 1, b.len() as int)) =~= before + pct_decode(rest));
            i = i + 1;
        } else {
            out.push(c);
            assert(rest.drop_first() =~= b.subrange(i + 1, b.len() as int));
            assert(out@ + pct_decode(b.subrange(i + 1, b.len() as int)) =~= before + pct_decode(rest));
            i = i + 1;
        }
    }
    assert(b.subrange(i as int, b.len() as int) =~= Seq::<u8>::empty());
    assert(out@ + Seq::<u8>::empty() =~= out@);
    decode_lossy(out.as_slice())
}

// ---------------------------------------------------------------------------
// Cleaning markup.
// ---------------------------------------------------------------------------

/// The characters of `s` outside `<…>` tags (`in_tag` says whether `s`
/// starts inside one).
pub open spec fn strip_tags(s: Seq<char>, in_tag: bool) -> Seq<char>
    decreases s.len(),
{
    if s.len() == 0 {
        seq![]
    } else if s[0] == '<' {
        strip_tags(s.drop_first(), true)
    } else if s[0] == '>' {
        strip_tags(s.drop_first(), false)
    } else if !in_tag {
        seq![s[0]] + strip_tags(s.drop_first(), in_tag)
    } else {
        strip_tags(s.drop_first(), in_tag)
    }
}

/// The entities the results page uses, decoded in this order.
pub open spec fn decode_entities(s: Seq<char>) -> Seq<char> {
    replace_all(
        replace_all(
            replace_all(
                replace_all(
                    replace_all(
                        replace_all(replace_all(s, "&amp;"@, "&"@), "&lt;"@, "<"@),
                        "&gt;"@,
                        ">"@,
                    ),
                    "&quot;"@,
                    "\""@,
                ),
                "&#x27;"@,
                "'"@,
            ),
            "&#39;"@,
            "'"@,
        ),
        "&nbsp;"@,
        " "@,
    )
}

/// Tags stripped, entities decoded, white space trimmed.
pub open spec fn clean_text(s: Seq<char>) -> Seq<char> {
    trim(decode_entities(strip_tags(s, false)))
}

fn clean_chars(s: &Vec<char>) -> (r: Vec<char>)
    ensures
        r@ == clean_text(s@),
{
    let mut no_tags: Vec<char> = Vec::new();
    let mut in_tag = false;
    let mut i: usize = 0;
    assert(s@.subrange(0, s@.len() as int) =~= s@);
    while i < s.len()
        invariant
            i <= s@.len(),
            strip_tags(s@, false) == no_tags@ + strip_tags(s@.subrange(i as int, s@.len() as int), in_tag),
        decreases s@.len() - i,
    {
        let ghost rest = s@.subrange(i as int, s@.len() as int);
        assert(rest.drop_first() =~= s@.subrange(i + 1, s@.len() as int));
        let c = s[i];
        if c == '<' {
            in_tag = true;
        } else if c == '>' {
            in_tag = false;
        } else if !in_tag {
            let ghost before = no_tags@;
            no_tags.push(c);
            assert(no_tags@ + strip_tags(s@.subrange(i + 1, s@.len() as int), in_tag) =~= before + strip_tags(rest, in_tag));
        }
        i = i + 1;
    }
    assert(s@.subrange(i as int, s@.len() as int) =~= Seq::<char>::empty());
    assert(no_tags@ + Seq::<char>::empty() =~= no_tags@);
    proof {
        reveal_strlit("&amp;");
        reveal_strlit("&lt;");
        reveal_strlit("&gt;");
        reveal_strlit("&quot;");
        reveal_strlit("&#x27;");
        reveal_strlit("&#39;");
        reveal_strlit("&nbsp;");
    }
    let a = replace_chars(&no_tags, "&amp;", "&");
    let b = replace_chars(&a, "&lt;", "<");
    let c = replace_chars(&b, "&gt;", ">");
    let d = replace_chars(&c, "&quot;", "\"");
    let e = replace_chars(&d, "&#x27;", "'");
    let f = replace_chars(&e, "&#39;", "'");
    let g = replace_chars(&f, "&nbsp;", " ");
    let (lo, hi) = trim_bounds(&g);
    let mut r: Vec<char> = Vec::new();
    let mut k: usize = lo;
    while k < hi
        invariant
            lo <= k <= hi <= g@.len(),
            r@ == g@.subrange(lo as int, k as int),
        decreases hi - k,
    {
        r.push(g[k]);
        assert(r@ =~= g@.subrange(lo as int, k + 1));
        k = k + 1;
    }
    r
}

/// Strip HTML tags, decode the handful of entities the results page emits,
/// then trim.
pub fn clean(s: &str) -> (r: String)
    ensures
        r@ == clean_text(s@),
{
    let cs = chars_of(s);
    let r = clean_chars(&cs);
    string_of(r.as_slice())
}

// ---------------------------------------------------------------------------
// Result links.
// ---------------------------------------------------------------------------

/// The real URL behind a result link: the percent-decoded `uddg=` target
/// (up to the next `&`) of a wrapped link; a protocol-relative `//…` link
/// made `https:`; anything else as it is.
pub open spec fn ddg_target(href: Seq<char>) -> Seq<char> {
    match find(href, "uddg="@) {
        Some(p) => {
            let tail = href.subrange(p + 5, href.len() as int);
            let enc = match first_index(tail, '&') {
                Some(e) => tail.subrange(0, e),
                None => tail,
            };
            utf8_lossy(pct_decode(vstd::utf8::encode_utf8(enc)))
        },
        None => if "//"@.is_prefix_of(href) {
            "https:"@ + href
        } else {
            href
        },
    }
}

fn prefix_before(s: &Vec<char>, from: usize, c: char) -> (r: Vec<char>)
    requires
        from <= s@.len(),
    ensures
        r@ == match first_index(s@.subrange(from as int, s@.len() as int), c) {
            Some(e) => s@.subrange(from as int, from + e),
            None => s@.subrange(from as int, s@.len() as int),
        },
{
    let mut r: Vec<char> = Vec::new();
    let mut k: usize = from;
    let ghost tail = s@.subrange(from as int, s@.len() as int);
    while k < s.len() && s[k] != c
        invariant
            from <= k <= s@.len(),
            tail == s@.subrange(from as int, s@.len() as int),
            r@ == s@.subrange(from as int, k as int),
            forall|m: int| from <= m < k ==> s@[m] != c,
        decreases s@.len() - k,
    {
        r.push(s[k]);
        assert(r@ =~= s@.subrange(from as int, k + 1));
        k = k + 1;
    }
    proof {
        if k < s@.len() {
            crate::text::lemma_first_index_at(tail, c, k - from);
        } else {
            crate::text::lemma_first_index_none(tail, c);
            assert(r@ =~= tail);
        }
    }
    r
}

/// Turn a result href into a real URL.
pub fn decode_ddg_href(href: &str) -> (r: String)
    ensures
        r@ == ddg_target(href@),
{
    let h = chars_of(href);
    let marker = chars_of("uddg=");
    proof {
        reveal_strlit("uddg=");
    }
    let hlen = h.len();
    match find_exec(&h, &marker, 0) {
        Some(p) => {
            proof {
                lemma_find_from_bounds(h@, marker@, 0);
            }
            let enc = prefix_before(&h, p + 5, '&');
            proof {
                let tail = href@.subrange(p + 5, href@.len() as int);
                assert(tail =~= h@.subrange(p + 5, h@.len() as int));
                crate::text::lemma_first_index_bounds(tail, '&');
                match first_index(tail, '&') {
                    Some(e) => {
                        assert(enc@ =~= tail.subrange(0, e));
                    },
                    None => {},
                }
            }
            let text = string_of(enc.as_slice());
            percent_decode(text.as_str())
        },
        None => {
            if crate::text::starts_with(href, "//") {
                let mut r = String::from_str("https:");
                r.append(href);
                r
            } else {
                owned(href)
            }
        },
    }
}

// ---------------------------------------------------------------------------
// Scraping the results page.
// ---------------------------------------------------------------------------

/// The value of the attribute opened by `attr` (e.g. `href="`): the text up
/// to the next `"`.
pub open spec fn attr_value(s: Seq<char>, attr: Seq<char>) -> Option<Seq<char>> {
    match find(s, attr) {
        Some(p) => {
            let tail = s.subrange(p + attr.len(), s.len() as int);
            match first_index(tail, '"') {
                Some(e) => Some(tail.subrange(0, e)),
                None => None,
            }
        },
        None => None,
    }
}

/// The text between the first `open` and the `close` after it.
pub open spec fn between(s: Seq<char>, open: Seq<char>, close: Seq<char>) -> Option<Seq<char>> {
    match find(s, open) {
        Some(p) => {
            let tail = s.subrange(p + open.len(), s.len() as int);
            match find(tail, close) {
                Some(e) => Some(tail.subrange(0, e)),
                None => None,
            }
        },
        None => None,
    }
}

/// `s` from the first occurrence of `marker` on.
pub open spec fn from_marker(s: Seq<char>, marker: Seq<char>) -> Option<Seq<char>> {
    match find(s, marker) {
        Some(p) => Some(s.subrange(p, s.len() as int)),
        None => None,
    }
}

fn slice_of(s: &Vec<char>, b: usize, e: usize) -> (r: Vec<char>)
    requires
        b <= e <= s@.len(),
    ensures
        r@ == s@.subrange(b as int, e as int),
{
    let mut r: Vec<char> = Vec::new();
    let mut k: usize = b;
    while k < e
        invariant
            b <= k <= e <= s@.len(),
            r@ == s@.subrange(b as int, k as int),
        decreases e - k,
    {
        r.push(s[k]);
        assert(r@ =~= s@.subrange(b as int, k + 1));
        k = k + 1;
    }
    r
}

/// The value of the attribute opened by `attr` in `s`.
pub fn extract_attr(s: &Vec<char>, attr: &str) -> (r: Option<Vec<char>>)
    ensures
        match attr_value(s@, attr@) {
            Some(v) => r matches Some(x) && x@ == v,
            None => r is None,
        },
{
    let a = chars_of(attr);
    let slen = s.len();
    match find_exec(s, &a, 0) {
        Some(p) => {
            proof {
                lemma_find_from_bounds(s@, a@, 0);
            }
            let start = p + a.len();
            let ghost tail = s@.subrange(start as int, s@.len() as int);
            let mut k: usize = start;
            while k < s.len() && s[k] != '"'
                invariant
                    start <= k <= s@.len(),
                    tail == s@.subrange(start as int, s@.len() as int),
                    forall|m: int| start <= m < k ==> s@[m] != '"',
                decreases s@.len() - k,
            {
                k = k + 1;
            }
            if k == s.len() {
                proof {
                    crate::text::lemma_first_index_none(tail, '"');
                }
                None
            } else {
                proof {
                    crate::text::lemma_first_index_at(tail, '"', k - start);
                    assert(tail.subrange(0, k - start) =~= s@.subrange(start as int, k as int));
                }
                Some(slice_of(s, start, k))
            }
        },
        None => None,
    }
}

/// The text between the first `open` and the following `close` in `s`.
pub fn extract_between(s: &Vec<char>, open: &str, close: &str) -> (r: Option<Vec<char>>)
    ensures
        match between(s@, open@, close@) {
            Some(v) => r matches Some(x) && x@ == v,
            None => r is None,
        },
{
    let o = chars_of(open);
    let c = chars_of(close);
    let slen = s.len();
    match find_exec(s, &o, 0) {
        Some(p) => {
            proof {
                lemma_find_from_bounds(s@, o@, 0);
            }
            let start = p + o.len();
            let tail = slice_of(s, start, s.len());
            match find_exec(&tail, &c, 0) {
                Some(e) => {
                    proof {
                        lemma_find_from_bounds(tail@, c@, 0);
                    }
                    Some(slice_of(&tail, 0, e))
                },
                None => None,
            }
        },
        None => None,
    }
}

/// `s` from the first occurrence of `marker` on, for chained extraction.
pub fn find_after(s: &Vec<char>, marker: &str) -> (r: Option<Vec<char>>)
    ensures
        match from_marker(s@, marker@) {
            Some(v) => r matches Some(x) && x@ == v,
            None => r is None,
        },
{
    let m = chars_of(marker);
    match find_exec(s, &m, 0) {
        Some(p) => {
            proof {
                lemma_find_from_bounds(s@, m@, 0);
            }
            Some(slice_of(s, p, s.len()))
        },
        None => None,
    }
}

/// Where the tag holding position `pos` opens: the last `<` before it, or
/// the start.
pub open spec fn tag_start(h: Seq<char>, pos: int) -> int
    decreases pos,
{
    if pos <= 0 {
        0
    } else if h[pos - 1] == '<' {
        pos - 1
    } else {
        tag_start(h, pos - 1)
    }
}

proof fn lemma_tag_start(h: Seq<char>, pos: int)
    requires
        0 <= pos <= h.len(),
    ensures
        0 <= tag_start(h, pos) <= pos,
    decreases pos,
{
    if pos > 0 && h[pos - 1] != '<' {
        lemma_tag_start(h, pos - 1);
    }
}

/// The snippet after a result anchor: the text of the `result__snippet`
/// element (an anchor, else a div), cleaned; empty when there is none.
pub open spec fn snippet_of(after: Seq<char>) -> Seq<char> {
    match from_marker(after, "result__snippet"@) {
        Some(tail) => match between(tail, ">"@, "</a>"@) {
            Some(x) => clean_text(x),
            None => match between(tail, ">"@, "</div>"@) {
                Some(x) => clean_text(x),
                None => seq![],
            },
        },
        None => seq![],
    }
}

/// The hit whose `result__a` marker sits at `m`: the anchor opening before
/// it must carry an `href` and a title, and the href must lead somewhere.
pub open spec fn hit_at(h: Seq<char>, m: int) -> Option<HitV> {
    let after = h.subrange(tag_start(h, m), h.len() as int);
    match (attr_value(after, "href=\""@), between(after, ">"@, "</a>"@)) {
        (Some(href), Some(title)) => {
            let url = ddg_target(href);
            if url.len() == 0 {
                None
            } else {
                Some(HitV { title: clean_text(title), url: url, snippet: snippet_of(after) })
            }
        },
        _ => None,
    }
}

/// Every hit from the result markers at or after `from`, in page order.
pub open spec fn ddg_hits_from(h: Seq<char>, from: int) -> Seq<HitV>
    decreases h.len() - from,
{
    match find_from(h, "result__a"@, from) {
        Some(m) => if from <= m && m + 9 <= h.len() {
            (match hit_at(h, m) {
                Some(x) => seq![x],
                None => seq![],
            }) + ddg_hits_from(h, m + 9)
        } else {
            seq![]
        },
        None => seq![],
    }
}

/// The hits of a results page, in page order, at most `limit` of them.
pub open spec fn ddg_hits(h: Seq<char>, limit: nat) -> Seq<HitV> {
    let all = ddg_hits_from(h, 0);
    if all.len() <= limit {
        all
    } else {
        all.subrange(0, limit as int)
    }
}

fn hit_at_exec(h: &Vec<char>, m: usize) -> (r: Option<Hit>)
    requires
        m <= h@.len(),
    ensures
        match hit_at(h@, m as int) {
            Some(x) => r matches Some(y) && y@ == x,
            None => r is None,
        },
{
    let mut t: usize = m;
    proof {
        lemma_tag_start(h@, m as int);
    }
    while t > 0 && h[t - 1] != '<'
        invariant
            t <= m <= h@.len(),
            tag_start(h@, m as int) == tag_start(h@, t as int),
        decreases t,
    {
        t = t - 1;
    }
    let start: usize = if t > 0 {
        t - 1
    } else {
        0
    };
    let after = slice_of(h, start, h.len());
    let href = extract_attr(&after, "href=\"");
    let title = extract_between(&after, ">", "</a>");
    match (href, title) {
        (Some(href), Some(title_raw)) => {
            let href_s = string_of(href.as_slice());
            let url = decode_ddg_href(href_s.as_str());
            if url.as_str().is_empty() {
                return None;
            }
            let title = string_of(clean_chars(&title_raw).as_slice());
            let snippet = match find_after(&after, "result__snippet") {
                Some(tail) => match extract_between(&tail, ">", "</a>") {
                    Some(x) => string_of(clean_chars(&x).as_slice()),
                    None => match extract_between(&tail, ">", "</div>") {
                        Some(x) => string_of(clean_chars(&x).as_slice()),
                        None => String::new(),
                    },
                },
                None => String::new(),
            };
            Some(Hit { title, url, snippet })
        },
        _ => None,
    }
}

/// Scrape hits out of a DuckDuckGo HTML results page. The stable markers
/// are the `result__a` anchor (title and a `uddg=`-wrapped href) and the
/// `result__snippet` element; anything that does not parse is skipped.
pub fn parse_ddg(html: &str, limit: usize) -> (r: Vec<Hit>)
    ensures
        hits_view(r@) == ddg_hits(html@, limit as nat),
        r@.len() <= limit,
{
    if limit == 0 {
        let none: Vec<Hit> = Vec::new();
        assert(hits_view(none@) =~= ddg_hits(html@, 0));
        return none;
    }
    let h = chars_of(html);
    let marker = chars_of("result__a");
    proof {
        reveal_strlit("result__a");
    }
    let mut hits: Vec<Hit> = Vec::new();
    let mut from: usize = 0;
    let ghost all = ddg_hits_from(h@, 0);
    while from <= h.len()
        invariant
            h@ == html@,
            marker@ == "result__a"@,
            marker@.len() == 9,
            h@.len() <= usize::MAX,
            all == ddg_hits_from(h@, 0),
            from <= h@.len() + 1,
            from <= h@.len() ==> all == hits_view(hits@) + ddg_hits_from(h@, from as int),
            from > h@.len() ==> all == hits_view(hits@),
            hits@.len() < limit,
        decreases h@.len() + 1 - from,
    {
        let pos = match find_exec(&h, &marker, from) {
            Some(p) => p,
            None => {
                assert(ddg_hits_from(h@, from as int) =~= Seq::<HitV>::empty());
                assert(all =~= hits_view(hits@));
                return hits;
            },
        };
        proof {
            lemma_find_from_bounds(h@, marker@, from as int);
        }
        let ghost before = hits_view(hits@);
        match hit_at_exec(&h, pos) {
            Some(hit) => {
                hits.push(hit);
                assert(hits_view(hits@) =~= before.push(hits@[hits@.len() - 1]@));
                if hits.len() >= limit {
                    proof {
                        let rest = ddg_hits_from(h@, pos + 9);
                        assert(all =~= hits_view(hits@) + rest);
                        assert(hits@.len() == limit);
                        assert(all.subrange(0, hits@.len() as int) =~= hits_view(hits@));
                    }
                    return hits;
                }
            },
            None => {},
        }
        proof {
            assert(all =~= hits_view(hits@) + ddg_hits_from(h@, pos + 9));
        }
        from = pos + 9;
    }
    hits
}

// ---------------------------------------------------------------------------
// SearXNG.
// ---------------------------------------------------------------------------

/// The hit a SearXNG result gives: needs a `url`; title and snippet
/// (`content`) default to empty.
pub open spec fn searx_hit(r: JsonV) -> Option<HitV> {
    match r.str_member("url"@) {
        Some(u) => Some(
            HitV {
                title: crate::sse::normalize::field_str(r, "title"@),
                url: u,
                snippet: crate::sse::normalize::field_str(r, "content"@),
            },
        ),
        None => None,
    }
}

/// The hits of a list of SearXNG results, in order.
pub open spec fn searx_hits(rs: Seq<JsonV>) -> Seq<HitV>
    decreases rs.len(),
{
    if rs.len() == 0 {
        seq![]
    } else {
        (match searx_hit(rs[0]) {
            Some(h) => seq![h],
            None => seq![],
        }) + searx_hits(rs.drop_first())
    }
}

/// The first `limit` hits of a SearXNG reply (`results[]`); none when it has
/// no result list.
pub open spec fn searxng_hits(v: JsonV, limit: nat) -> Seq<HitV> {
    match v.get("results"@) {
        Some(JsonV::Array(rs)) => {
            let all = searx_hits(rs);
            if all.len() <= limit {
                all
            } else {
                all.subrange(0, limit as int)
            }
        },
        _ => seq![],
    }
}

fn text_or_empty(v: &Json, key: &str) -> (r: String)
    ensures
        r@ == crate::sse::normalize::field_str(v@, key@),
{
    match v.get_str(key) {
        Some(s) => owned(s),
        None => String::new(),
    }
}

/// Pull hits out of a SearXNG JSON reply (`results[]` of
/// `{title, url, content}`).
pub fn parse_searxng(v: &Json, limit: usize) -> (r: Vec<Hit>)
    ensures
        hits_view(r@) == searxng_hits(v@, limit as nat),
{
    let mut out: Vec<Hit> = Vec::new();
    match v.get("results") {
        Some(Json::Array(rs)) => {
            let ghost all = searx_hits(v@.get("results"@)->0->Array_0);
            let ghost rsv = v@.get("results"@)->0->Array_0;
            assert(rsv.subrange(0, rsv.len() as int) =~= rsv);
            let mut i: usize = 0;
            while i < rs.len() && out.len() < limit
                invariant
                    rsv.len() == rs@.len(),
                    forall|k: int| 0 <= k < rs@.len() ==> #[trigger] rsv[k] == rs@[k]@,
                    all == searx_hits(rsv),
                    rsv == v@.get("results"@)->0->Array_0,
                    v@.get("results"@) is Some,
                    v@.get("results"@)->0 is Array,
                    i <= rs@.len(),
                    out@.len() <= limit,
                    all == hits_view(out@) + searx_hits(rsv.subrange(i as int, rsv.len() as int)),
                decreases rs@.len() - i,
            {
                let ghost rest = rsv.subrange(i as int, rsv.len() as int);
                assert(rest[0] == rs@[i as int]@);
                assert(rest.drop_first() =~= rsv.subrange(i + 1, rsv.len() as int));
                let r = &rs[i];
                let ghost before = hits_view(out@);
                match r.get_str("url") {
                    Some(u) => {
                        out.push(Hit { title: text_or_empty(r, "title"), url: owned(u), snippet: text_or_empty(r, "content") });
                        assert(hits_view(out@) =~= before.push(out@[out@.len() - 1]@));
                    },
                    None => {},
                }
                i = i + 1;
            }
            proof {
                let rest = searx_hits(rsv.subrange(i as int, rsv.len() as int));
                if out@.len() < limit {
                    assert(rsv.subrange(i as int, rsv.len() as int) =~= Seq::<JsonV>::empty());
                    assert(all =~= hits_view(out@));
                } else {
                    assert(all.subrange(0, limit as int) =~= hits_view(out@));
                }
            }
            out
        },
        _ => {
            out
        },
    }
}


// ---------------------------------------------------------------------------
// The tool.
// ---------------------------------------------------------------------------

/// Which search backend to use: DuckDuckGo's keyless HTML endpoint, or a
/// self-hosted SearXNG instance's JSON API.
#[derive(Debug, Clone, PartialEq)]
pub enum WebSearchConfig {
    Ddg,
    Searxng { url: String },
}

/// The SearXNG search endpoint for a base URL (trailing `/`s dropped).
pub fn searxng_search_url(base: &str) -> (r: String)
    ensures
        r@ == crate::llm::base_url_of(base@) + "/search"@,
{
    let mut u = crate::llm::normalize_base_url(base);
    u.append("/search");
    u
}

/// The `web_search` tool.
pub struct WebSearchTool;

impl WebSearchTool {
    pub fn kind(&self) -> (r: crate::tools::ToolKind)
        ensures
            r == crate::tools::ToolKind::WebSearch,
    {
        crate::tools::ToolKind::WebSearch
    }
}

/// How many results to ask for: `limit` clamped to `[1, 10]`, 5 by default.
pub open spec fn result_limit(args: JsonV) -> nat {
    match crate::sse::normalize::field_u64(args, "limit"@) {
        Some(n) => if n < 1 {
            1
        } else if n > 10 {
            10
        } else {
            n as nat
        },
        None => 5,
    }
}

/// Read a `web_search` call: its query (required) and result limit.
pub fn web_search_args(args: &Json) -> (r: Result<(String, usize), String>)
    ensures
        match args@.str_member("query"@) {
            None => r matches Err(e) && e@ == "web_search requires a 'query' string"@,
            Some(q) => r matches Ok((x, n)) && x@ == q && n == result_limit(args@),
        },
{
    let query = match args.get_str("query") {
        Some(q) => owned(q),
        None => return Err(owned("web_search requires a 'query' string")),
    };
    let limit: usize = match args.get("limit") {
        Some(x) => match x.as_u64() {
            Some(n) => if n < 1 {
                1
            } else if n > 10 {
                10
            } else {
                n as usize
            },
            None => 5,
        },
        None => 5,
    };
    Ok((query, limit))
}

/// The progress line while searching.
pub fn search_progress(query: &str) -> (r: String)
    ensures
        r@ == "Searching the web for: "@ + query@,
{
    let mut s = owned("Searching the web for: ");
    s.append(query);
    s
}

/// One numbered result: `\n<n>. <title>\n<url>\n<snippet>\n`, an empty title
/// shown as `(untitled)`.
pub open spec fn hit_block(n: nat, h: HitV) -> Seq<char> {
    "\n"@ + dec_digits(n) + ". "@ + (if h.title.len() == 0 { "(untitled)"@ } else { h.title }) + "\n"@ + h.url + "\n"@
        + h.snippet + "\n"@
}

/// The numbered blocks of `hs`, the first numbered `from`.
pub open spec fn hit_blocks(hs: Seq<HitV>) -> Seq<char>
    decreases hs.len(),
{
    if hs.len() == 0 {
        seq![]
    } else {
        hit_blocks(hs.drop_last()) + hit_block(hs.len(), hs.last())
    }
}

/// What the model reads back from a search.
pub open spec fn results_text(query: Seq<char>, hs: Seq<HitV>) -> Seq<char> {
    if hs.len() == 0 {
        "No web results found for \""@ + query + "\"."@
    } else {
        "Top "@ + dec_digits(hs.len()) + " web results for \""@ + query + "\":\n"@ + hit_blocks(hs)
    }
}

/// Shape search hits into the text the model reads back.
pub fn format_results(query: &str, hits: &[Hit]) -> (r: String)
    ensures
        r@ == results_text(query@, hits_view(hits@)),
{
    let ghost hv = hits_view(hits@);
    if hits.len() == 0 {
        let mut s = owned("No web results found for \"");
        s.append(query);
        s.append("\".");
        return s;
    }
    let mut s = owned("Top ");
    s.append(decimal(hits.len() as u64).as_str());
    s.append(" web results for \"");
    s.append(query);
    s.append("\":\n");
    let ghost head = s@;
    let mut i: usize = 0;
    assert(hv.subrange(0, 0) =~= Seq::<HitV>::empty());
    assert(head + hit_blocks(Seq::<HitV>::empty()) =~= head);
    while i < hits.len()
        invariant
            i <= hits@.len(),
            hv == hits_view(hits@),
            s@ == head + hit_blocks(hv.subrange(0, i as int)),
        decreases hits@.len() - i,
    {
        let h = &hits[i];
        let ghost before = s@;
        s.append("\n");
        s.append(decimal((i + 1) as u64).as_str());
        s.append(". ");
        if h.title.as_str().is_empty() {
            s.append("(untitled)");
        } else {
            s.append(h.title.as_str());
        }
        s.append("\n");
        s.append(h.url.as_str());
        s.append("\n");
        s.append(h.snippet.as_str());
        s.append("\n");
        proof {
            let sub = hv.subrange(0, i + 1);
            assert(sub.drop_last() =~= hv.subrange(0, i as int));
            assert(sub.last() == hv[i as int]);
            assert(s@ =~= before + hit_block((i + 1) as nat, hv[i as int]));
        }
        i = i + 1;
    }
    assert(hv.subrange(0, hits@.len() as int) =~= hv);
    s
}

/// The SearXNG results that carry a `url`, in order.
pub open spec fn url_results(rs: Seq<JsonV>) -> Seq<JsonV>
    decreases rs.len(),
{
    if rs.len() == 0 {
        seq![]
    } else {
        (if rs[0].str_member("url"@) is Some {
            seq![rs[0]]
        } else {
            seq![]
        }) + url_results(rs.drop_first())
    }
}

proof fn lemma_searx_hits_follow_url_results(rs: Seq<JsonV>)
    ensures
        searx_hits(rs).len() == url_results(rs).len(),
        forall|k: int|
            0 <= k < searx_hits(rs).len() ==> Some((#[trigger] searx_hits(rs)[k]).url) == url_results(rs)[k].str_member("url"@)
                && searx_hits(rs)[k].title == crate::sse::normalize::field_str(url_results(rs)[k], "title"@)
                && searx_hits(rs)[k].snippet == crate::sse::normalize::field_str(url_results(rs)[k], "content"@),
    decreases rs.len(),
{
    if rs.len() > 0 {
        lemma_searx_hits_follow_url_results(rs.drop_first());
        let h = searx_hits(rs);
        let u = url_results(rs);
        let ht = searx_hits(rs.drop_first());
        let ut = url_results(rs.drop_first());
        if rs[0].str_member("url"@) is Some {
            assert forall|k: int| 0 <= k < h.len() implies Some((#[trigger] h[k]).url) == u[k].str_member("url"@)
                && h[k].title == crate::sse::normalize::field_str(u[k], "title"@)
                && h[k].snippet == crate::sse::normalize::field_str(u[k], "content"@) by {
                if k > 0 {
                    assert(h[k] == ht[k - 1]);
                    assert(u[k] == ut[k - 1]);
                }
            }
        } else {
            assert(h =~= ht);
            assert(u =~= ut);
        }
    }
}

/// A SearXNG reply gives at most `limit` hits, and they are its first
/// `limit` results that carry a `url`, in order: each hit has that result's
/// url, its `title` and its `content` (empty when not text). A reply with no
/// result list gives none.
pub proof fn law_searxng_takes_the_first_limit_results(v: JsonV, limit: nat)
    ensures
        searxng_hits(v, limit).len() <= limit,
        v.get("results"@) matches Some(JsonV::Array(rs)) ==> {
            let u = url_results(rs);
            let h = searxng_hits(v, limit);
            &&& h.len() == (if u.len() <= limit { u.len() } else { limit })
            &&& forall|k: int|
                0 <= k < h.len() ==> Some((#[trigger] h[k]).url) == u[k].str_member("url"@)
                    && h[k].title == crate::sse::normalize::field_str(u[k], "title"@)
                    && h[k].snippet == crate::sse::normalize::field_str(u[k], "content"@)
        },
        !(v.get("results"@) matches Some(JsonV::Array(_))) ==> searxng_hits(v, limit).len() == 0,
{
    match v.get("results"@) {
        Some(JsonV::Array(rs)) => {
            lemma_searx_hits_follow_url_results(rs);
            let h = searxng_hits(v, limit);
            let all = searx_hits(rs);
            assert forall|k: int| 0 <= k < h.len() implies h[k] == all[k] by {}
        },
        _ => {},
    }
}

} // verus!
