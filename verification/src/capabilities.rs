//! The four capability toggles and the agent permissions they drive.
//!
//! A toggle composes onto two knobs: the per-turn flags (`allow_web_search`
//! for Web, `allow_bash` for Code), and a persistent `disabled_tools` list —
//! every tool of an *off* category, plus an infra/vault/management set that is
//! always disabled (Myo connects as admin, so the brain's own role gate never
//! closes it for us).

use vstd::prelude::*;

use crate::text::{lemma_lex_asymmetric, lemma_lex_irreflexive, lemma_lex_total, lemma_lex_transitive, lex_lt, owned, str_lt};

verus! {

/// The four categories the user (or the agent) flips.
#[derive(Debug, Clone, Copy, PartialEq, Eq, Structural)]
pub struct Capabilities {
    /// Read the web — search and research.
    pub web: bool,
    /// Read and write files and documents.
    pub files: bool,
    /// Run code.
    pub code: bool,
    /// Reach out to people — email, calendar, contacts.
    pub reach_out: bool,
}

impl Default for Capabilities {
    /// Web on, everything else off: looking things up works out of the box;
    /// files, code and contacting anyone are opt-in.
    fn default() -> (c: Self)
        ensures
            c == (Capabilities { web: true, files: false, code: false, reach_out: false }),
    {
        Capabilities { web: true, files: false, code: false, reach_out: false }
    }
}

/// The texts of a sequence of strings.
pub open spec fn texts(v: Seq<String>) -> Seq<Seq<char>> {
    Seq::new(v.len(), |i: int| v[i]@)
}

/// The texts of a sequence of string slices.
pub open spec fn slice_texts(v: Seq<&str>) -> Seq<Seq<char>> {
    Seq::new(v.len(), |i: int| v[i]@)
}

/// Strictly increasing: sorted, with no entry twice.
pub open spec fn strictly_sorted(s: Seq<Seq<char>>) -> bool {
    forall|i: int, j: int| 0 <= i < j < s.len() ==> lex_lt(#[trigger] s[i], #[trigger] s[j])
}

pub open spec fn web_tool_names() -> Seq<Seq<char>> {
    seq!["web_search"@, "trigger_research"@, "manage_research"@]
}

pub open spec fn files_tool_names() -> Seq<Seq<char>> {
    seq![
        "read_file"@,
        "write_file"@,
        "create_document"@,
        "edit_document"@,
        "update_document"@,
        "suggest_document"@,
        "manage_documents"@,
    ]
}

pub open spec fn code_tool_names() -> Seq<Seq<char>> {
    seq!["bash"@, "python"@]
}

pub open spec fn reach_out_tool_names() -> Seq<Seq<char>> {
    seq![
        "send_email"@,
        "reply_to_email"@,
        "list_emails"@,
        "read_email"@,
        "list_email_accounts"@,
        "bulk_email"@,
        "archive_email"@,
        "delete_email"@,
        "mark_email_read"@,
        "manage_calendar"@,
        "resolve_contact"@,
        "manage_contact"@,
    ]
}

/// Infra, vault, model serving and management: no category, always off.
pub open spec fn always_disabled_names() -> Seq<Seq<char>> {
    seq![
        "api_call"@,
        "app_api"@,
        "vault_search"@,
        "vault_get"@,
        "vault_unlock"@,
        "manage_endpoints"@,
        "manage_mcp"@,
        "manage_webhooks"@,
        "manage_tokens"@,
        "manage_settings"@,
        "download_model"@,
        "serve_model"@,
        "stop_served_model"@,
        "cancel_download"@,
        "adopt_served_model"@,
    ]
}

/// The tools of each *off* category, then the always-off set.
pub open spec fn disabled_names(c: Capabilities) -> Seq<Seq<char>> {
    (if c.web { seq![] } else { web_tool_names() }) + (if c.files {
        seq![]
    } else {
        files_tool_names()
    }) + (if c.code { seq![] } else { code_tool_names() }) + (if c.reach_out {
        seq![]
    } else {
        reach_out_tool_names()
    }) + always_disabled_names()
}

/// The set of tool names the brain must refuse under `c`.
pub open spec fn disabled_set(c: Capabilities) -> Set<Seq<char>> {
    disabled_names(c).to_set()
}

fn web_tools() -> (r: Vec<&'static str>)
    ensures
        slice_texts(r@) == web_tool_names(),
{
    let r = vec!["web_search", "trigger_research", "manage_research"];
    assert(slice_texts(r@) =~= web_tool_names());
    r
}

fn files_tools() -> (r: Vec<&'static str>)
    ensures
        slice_texts(r@) == files_tool_names(),
{
    let r = vec![
        "read_file",
        "write_file",
        "create_document",
        "edit_document",
        "update_document",
        "suggest_document",
        "manage_documents",
    ];
    assert(slice_texts(r@) =~= files_tool_names());
    r
}

fn code_tools() -> (r: Vec<&'static str>)
    ensures
        slice_texts(r@) == code_tool_names(),
{
    let r = vec!["bash", "python"];
    assert(slice_texts(r@) =~= code_tool_names());
    r
}

fn reach_out_tools() -> (r: Vec<&'static str>)
    ensures
        slice_texts(r@) == reach_out_tool_names(),
{
    let r = vec![
        "send_email",
        "reply_to_email",
        "list_emails",
        "read_email",
        "list_email_accounts",
        "bulk_email",
        "archive_email",
        "delete_email",
        "mark_email_read",
        "manage_calendar",
        "resolve_contact",
        "manage_contact",
    ];
    assert(slice_texts(r@) =~= reach_out_tool_names());
    r
}

fn always_disabled() -> (r: Vec<&'static str>)
    ensures
        slice_texts(r@) == always_disabled_names(),
{
    let r = vec![
        "api_call",
        "app_api",
        "vault_search",
        "vault_get",
        "vault_unlock",
        "manage_endpoints",
        "manage_mcp",
        "manage_webhooks",
        "manage_tokens",
        "manage_settings",
        "download_model",
        "serve_model",
        "stop_served_model",
        "cancel_download",
        "adopt_served_model",
    ];
    assert(slice_texts(r@) =~= always_disabled_names());
    r
}

/// Insert `x` into a strictly sorted list, keeping it strictly sorted; an
/// entry already present is not added twice.
fn insert_sorted(out: &mut Vec<String>, x: &str)
    requires
        strictly_sorted(texts(old(out)@)),
    ensures
        strictly_sorted(texts(final(out)@)),
        texts(final(out)@).to_set() == texts(old(out)@).to_set().insert(x@),
{
    let ghost s = texts(out@);
    let mut p: usize = 0;
    while p < out.len() && str_lt(out[p].as_str(), x)
        invariant
            s == texts(out@),
            strictly_sorted(s),
            p <= out@.len(),
            forall|k: int| 0 <= k < p ==> lex_lt(#[trigger] s[k], x@),
        decreases out@.len() - p,
    {
        p = p + 1;
    }
    if p < out.len() && crate::text::eq_str(out[p].as_str(), x) {
        assert(s.to_set().insert(x@) =~= s.to_set()) by {
            assert(s[p as int] == x@);
        }
        return;
    }
    // Every entry from `p` on sorts after `x`.
    assert forall|k: int| p <= k < s.len() implies lex_lt(x@, #[trigger] s[k]) by {
        assert(!lex_lt(s[p as int], x@));
        assert(s[p as int] != x@);
        lemma_lex_total(s[p as int], x@);
        if k > p {
            lemma_lex_transitive(x@, s[p as int], s[k]);
        }
    }
    out.insert(p, owned(x));
    let ghost t = texts(out@);
    assert(t =~= s.insert(p as int, x@));
    assert forall|i: int, j: int| 0 <= i < j < t.len() implies lex_lt(#[trigger] t[i], #[trigger] t[j]) by {
        if j < p {
        } else if j == p {
        } else if i < p {
            lemma_lex_transitive(s[i], x@, s[j - 1]);
        } else if i == p {
        } else {
        }
    }
    assert forall|e: Seq<char>| t.to_set().contains(e) <==> s.to_set().insert(x@).contains(e) by {
        if t.contains(e) {
            let k = choose|k: int| 0 <= k < t.len() && t[k] == e;
            if k < p {
                assert(s[k] == e);
            } else if k > p {
                assert(s[k - 1] == e);
            }
        }
        if s.contains(e) {
            let k = choose|k: int| 0 <= k < s.len() && s[k] == e;
            if k < p {
                assert(t[k] == e);
            } else {
                assert(t[k + 1] == e);
            }
        }
        if e == x@ {
            assert(t[p as int] == e);
        }
    }
    assert(t.to_set() =~= s.to_set().insert(x@));
}

/// Insert every name of `names`.
fn insert_all(out: &mut Vec<String>, names: Vec<&'static str>)
    requires
        strictly_sorted(texts(old(out)@)),
    ensures
        strictly_sorted(texts(final(out)@)),
        texts(final(out)@).to_set() == texts(old(out)@).to_set() + slice_texts(names@).to_set(),
{
    let ghost start = texts(out@).to_set();
    let ghost n = slice_texts(names@);
    let mut i: usize = 0;
    while i < names.len()
        invariant
            i <= names@.len(),
            n == slice_texts(names@),
            strictly_sorted(texts(out@)),
            texts(out@).to_set() == start + n.subrange(0, i as int).to_set(),
        decreases names@.len() - i,
    {
        insert_sorted(out, names[i]);
        assert(n.subrange(0, i + 1).to_set() =~= n.subrange(0, i as int).to_set().insert(n[i as int])) by {
            assert(n.subrange(0, i + 1) =~= n.subrange(0, i as int).push(n[i as int]));
            assert forall|e: Seq<char>| n.subrange(0, i + 1).contains(e) implies n.subrange(0, i as int).contains(e) || e == n[i as int] by {
                let k = choose|k: int| 0 <= k < i + 1 && #[trigger] n.subrange(0, i + 1)[k] == e;
                if k < i {
                    assert(n.subrange(0, i as int)[k] == e);
                }
            }
            assert forall|e: Seq<char>| n.subrange(0, i as int).contains(e) implies n.subrange(0, i + 1).contains(e) by {
                let k = choose|k: int| 0 <= k < i && #[trigger] n.subrange(0, i as int)[k] == e;
                assert(n.subrange(0, i + 1)[k] == e);
            }
            assert(n.subrange(0, i + 1)[i as int] == n[i as int]);
        }
        assert(texts(out@).to_set() =~= start + n.subrange(0, i + 1).to_set());
        i = i + 1;
    }
    assert(n.subrange(0, names@.len() as int) =~= n);
}

proof fn lemma_to_set_concat(a: Seq<Seq<char>>, b: Seq<Seq<char>>)
    ensures
        (a + b).to_set() == a.to_set() + b.to_set(),
{
    assert forall|e: Seq<char>| (a + b).contains(e) <==> a.contains(e) || b.contains(e) by {
        if (a + b).contains(e) {
            let k = choose|k: int| 0 <= k < (a + b).len() && (a + b)[k] == e;
            if k < a.len() {
                assert(a[k] == e);
            } else {
                assert(b[k - a.len()] == e);
            }
        }
        if a.contains(e) {
            let k = choose|k: int| 0 <= k < a.len() && a[k] == e;
            assert((a + b)[k] == e);
        }
        if b.contains(e) {
            let k = choose|k: int| 0 <= k < b.len() && b[k] == e;
            assert((a + b)[a.len() + k] == e);
        }
    }
    assert((a + b).to_set() =~= a.to_set() + b.to_set());
}

impl Capabilities {
    /// The per-turn `allow_web_search` flag.
    pub fn allow_web_search(&self) -> (r: bool)
        ensures
            r == self.web,
    {
        self.web
    }

    /// The per-turn `allow_bash` flag.
    pub fn allow_bash(&self) -> (r: bool)
        ensures
            r == self.code,
    {
        self.code
    }

    /// The persistent `disabled_tools` list: every tool of an off category,
    /// plus the always-off set — sorted, each name once, so the result is
    /// stable.
    pub fn disabled_tools(&self) -> (r: Vec<String>)
        ensures
            strictly_sorted(texts(r@)),
            texts(r@).to_set() == disabled_set(*self),
    {
        let mut out: Vec<String> = Vec::new();
        let ghost c = *self;
        assert(texts(out@).to_set() =~= Set::empty());
        let ghost mut acc: Seq<Seq<char>> = seq![];
        if !self.web {
            insert_all(&mut out, web_tools());
        }
        proof {
            let part = if c.web { seq![] } else { web_tool_names() };
            lemma_to_set_concat(acc, part);
            assert(seq![].to_set() =~= Set::<Seq<char>>::empty());
            acc = acc + part;
            assert(texts(out@).to_set() =~= acc.to_set());
        }
        if !self.files {
            insert_all(&mut out, files_tools());
        }
        proof {
            let part = if c.files { seq![] } else { files_tool_names() };
            lemma_to_set_concat(acc, part);
            acc = acc + part;
            assert(texts(out@).to_set() =~= acc.to_set());
        }
        if !self.code {
            insert_all(&mut out, code_tools());
        }
        proof {
            let part = if c.code { seq![] } else { code_tool_names() };
            lemma_to_set_concat(acc, part);
            acc = acc + part;
            assert(texts(out@).to_set() =~= acc.to_set());
        }
        if !self.reach_out {
            insert_all(&mut out, reach_out_tools());
        }
        proof {
            let part = if c.reach_out { seq![] } else { reach_out_tool_names() };
            lemma_to_set_concat(acc, part);
            acc = acc + part;
            assert(texts(out@).to_set() =~= acc.to_set());
        }
        insert_all(&mut out, always_disabled());
        proof {
            lemma_to_set_concat(acc, always_disabled_names());
            acc = acc + always_disabled_names();
            assert(acc =~= disabled_names(c));
        }
        out
    }
}

/// Turning a toggle on never disables more: if every category `on` has
/// enabled is also enabled in `more`, then `more`'s disabled tools are among
/// `on`'s.
pub proof fn law_enabling_never_disables_more(on: Capabilities, more: Capabilities)
    requires
        on.web ==> more.web,
        on.files ==> more.files,
        on.code ==> more.code,
        on.reach_out ==> more.reach_out,
    ensures
        disabled_set(more).subset_of(disabled_set(on)),
{
    assert forall|e: Seq<char>| disabled_set(more).contains(e) implies disabled_set(on).contains(e) by {
        let k = choose|k: int| 0 <= k < disabled_names(more).len() && disabled_names(more)[k] == e;
        let w = if on.web { seq![] } else { web_tool_names() };
        let f = if on.files { seq![] } else { files_tool_names() };
        let c = if on.code { seq![] } else { code_tool_names() };
        let r = if on.reach_out { seq![] } else { reach_out_tool_names() };
        let w2 = if more.web { seq![] } else { web_tool_names() };
        let f2 = if more.files { seq![] } else { files_tool_names() };
        let c2 = if more.code { seq![] } else { code_tool_names() };
        let r2 = if more.reach_out { seq![] } else { reach_out_tool_names() };
        let a = always_disabled_names();
        lemma_to_set_concat(w2, f2);
        lemma_to_set_concat(w2 + f2, c2);
        lemma_to_set_concat(w2 + f2 + c2, r2);
        lemma_to_set_concat(w2 + f2 + c2 + r2, a);
        lemma_to_set_concat(w, f);
        lemma_to_set_concat(w + f, c);
        lemma_to_set_concat(w + f + c, r);
        lemma_to_set_concat(w + f + c + r, a);
        assert(disabled_names(more).to_set().contains(e));
        assert(w2.to_set().subset_of(w.to_set()));
        assert(f2.to_set().subset_of(f.to_set()));
        assert(c2.to_set().subset_of(c.to_set()));
        assert(r2.to_set().subset_of(r.to_set()));
    }
}

/// The infra/vault/management set is disabled whatever the toggles say.
pub proof fn law_infra_always_disabled(c: Capabilities)
    ensures
        always_disabled_names().to_set().subset_of(disabled_set(c)),
{
    let n = disabled_names(c);
    let a = always_disabled_names();
    assert forall|e: Seq<char>| a.to_set().contains(e) implies disabled_set(c).contains(e) by {
        let k = choose|k: int| 0 <= k < a.len() && a[k] == e;
        assert(n[n.len() - a.len() + k] == e);
    }
}

/// A strictly sorted list holds no name twice.
pub proof fn law_sorted_list_has_no_duplicates(s: Seq<Seq<char>>)
    requires
        strictly_sorted(s),
    ensures
        forall|i: int, j: int| 0 <= i < j < s.len() ==> s[i] != s[j],
{
    assert forall|i: int, j: int| 0 <= i < j < s.len() implies s[i] != s[j] by {
        assert(lex_lt(s[i], s[j]));
        if s[i] == s[j] {
            lemma_lex_irreflexive(s[i]);
        }
    }
}

/// The code toggle alone governs the code tools: with it off, both
/// `bash` and `python` are disabled whatever the other toggles say; and two
/// settings that agree on it (and on web and reach-out) agree on whether
/// each of them is disabled, so the files toggle never decides either.
pub proof fn law_code_toggle_governs_code_tools(c: Capabilities, d: Capabilities)
    ensures
        !c.code ==> disabled_set(c).contains("bash"@) && disabled_set(c).contains("python"@),
        c.web == d.web && c.code == d.code && c.reach_out == d.reach_out ==> (disabled_set(c).contains(
            "python"@,
        ) <==> disabled_set(d).contains("python"@)) && (disabled_set(c).contains("bash"@)
            <==> disabled_set(d).contains("bash"@)),
{
    reveal_strlit("bash");
    reveal_strlit("python");
    reveal_strlit("read_file");
    reveal_strlit("write_file");
    reveal_strlit("create_document");
    reveal_strlit("edit_document");
    reveal_strlit("update_document");
    reveal_strlit("suggest_document");
    reveal_strlit("manage_documents");
    let f = files_tool_names();
    assert(f.len() == 7);
    assert forall|k: int| 0 <= k < f.len() implies f[k].len() > 6 by {}
    assert(!f.contains("python"@) && !f.contains("bash"@));
    lemma_files_toggle_is_irrelevant(c, "python"@);
    lemma_files_toggle_is_irrelevant(d, "python"@);
    lemma_files_toggle_is_irrelevant(c, "bash"@);
    lemma_files_toggle_is_irrelevant(d, "bash"@);
    if !c.code {
        let n = disabled_names(c);
        let w = if c.web { seq![] } else { web_tool_names() };
        let before = w + (if c.files { seq![] } else { files_tool_names() });
        assert(n[before.len() as int] == "bash"@);
        assert(n[before.len() + 1int] == "python"@);
        assert(n.contains("bash"@));
        assert(n.contains("python"@));
    }
}

/// A name outside the files tools is disabled under `c` exactly when it is
/// disabled under `c` with the files toggle on.
proof fn lemma_files_toggle_is_irrelevant(c: Capabilities, x: Seq<char>)
    requires
        !files_tool_names().contains(x),
    ensures
        disabled_set(c).contains(x) <==> disabled_set(Capabilities { files: true, ..c }).contains(x),
{
    let e = Capabilities { files: true, ..c };
    let w = if c.web { seq![] } else { web_tool_names() };
    let f = if c.files { seq![] } else { files_tool_names() };
    let rest = (if c.code { seq![] } else { code_tool_names() }) + (if c.reach_out { seq![] } else { reach_out_tool_names() }) + always_disabled_names();
    assert(disabled_names(c) =~= w + f + rest) by {
        assert(disabled_names(c) =~= w + f + (if c.code { seq![] } else { code_tool_names() }) + (if c.reach_out { seq![] } else { reach_out_tool_names() }) + always_disabled_names());
    }
    assert(disabled_names(e) =~= w + rest);
    assert(!f.contains(x));
    assert((w + f + rest).contains(x) <==> (w.contains(x) || f.contains(x) || rest.contains(x))) by {
        if (w + f + rest).contains(x) {
            let k = choose|k: int| 0 <= k < (w + f + rest).len() && (w + f + rest)[k] == x;
            if k < w.len() {
                assert(w[k] == x);
            } else if k < w.len() + f.len() {
                assert(f[k - w.len()] == x);
            } else {
                assert(rest[k - w.len() - f.len()] == x);
            }
        }
        if w.contains(x) {
            let k = choose|k: int| 0 <= k < w.len() && w[k] == x;
            assert((w + f + rest)[k] == x);
        }
        if rest.contains(x) {
            let k = choose|k: int| 0 <= k < rest.len() && rest[k] == x;
            assert((w + f + rest)[w.len() + f.len() + k] == x);
        }
    }
    assert((w + rest).contains(x) <==> (w.contains(x) || rest.contains(x))) by {
        if (w + rest).contains(x) {
            let k = choose|k: int| 0 <= k < (w + rest).len() && (w + rest)[k] == x;
            if k < w.len() {
                assert(w[k] == x);
            } else {
                assert(rest[k - w.len()] == x);
            }
        }
        if w.contains(x) {
            let k = choose|k: int| 0 <= k < w.len() && w[k] == x;
            assert((w + rest)[k] == x);
        }
        if rest.contains(x) {
            let k = choose|k: int| 0 <= k < rest.len() && rest[k] == x;
            assert((w + rest)[w.len() + k] == x);
        }
    }
}

} // verus!
