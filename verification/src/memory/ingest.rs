//! Automatic memory capture: after each turn a plain completion reads the
//! exchange and lists durable memories as `category: memory` lines. This is
//! the decision half — whether a turn is read at all, the request, and how
//! the reply is read; the completion, embedding, de-duplication and storing
//! happen at the edge.

use vstd::prelude::*;
use vstd::string::StringExecFns;

use crate::llm::{bare_message, ChatMessage};
use crate::text::{
    chars_of, eq_ignore_case, eq_ignore_case_exec, first_index, lemma_first_index_at,
    lemma_first_index_none, owned, split_chars, split_on, string_of, trim, trim_bounds,
};

verus! {

/// At most this many memories are captured from one turn.
pub const MAX_PER_TURN: usize = 3;

/// The instruction for the extraction completion.
pub const EXTRACT_INSTRUCTION: &'static str = "You curate a person's long-term memory. From the exchange below, extract only durable, reusable things worth remembering for future conversations — stable preferences, personal facts, ongoing projects, important dates, relationships. Ignore small talk, one-off context, questions, and anything about you (the assistant). Output each memory on its own line as `category: memory`, where category is a single lowercase word like preference, fact, project, event, or person, and memory is one self-contained sentence written about the user. If there is nothing worth keeping, output exactly NONE.";

/// Is a finished turn read for memories? Not under incognito, and not when
/// the user said nothing.
pub fn should_ingest(user: &str, incognito: bool) -> (r: bool)
    ensures
        r == (!incognito && trim(user@).len() > 0),
{
    if incognito {
        return false;
    }
    let cs = chars_of(user);
    let (b, e) = trim_bounds(&cs);
    b < e
}

/// The extraction request for one exchange.
pub fn extraction_messages(user: &str, assistant: &str) -> (r: Vec<ChatMessage>)
    ensures
        r@.len() == 2,
        bare_message(r@[0], "system"@, EXTRACT_INSTRUCTION@),
        bare_message(r@[1], "user"@, "User: "@ + user@ + "\nAssistant: "@ + assistant@),
{
    let mut u = owned("User: ");
    u.append(user);
    u.append("\nAssistant: ");
    u.append(assistant);
    vec![ChatMessage::system(EXTRACT_INSTRUCTION), ChatMessage::user(u.as_str())]
}

/// `str::to_lowercase`: the Unicode lowercase mapping of a text.
pub uninterp spec fn lowercase(s: Seq<char>) -> Seq<char>;

/// `str::to_lowercase`.
#[verifier::external_body]
pub(crate) fn to_lowercase(s: &str) -> (r: String)
    ensures
        r@ == lowercase(s@),
{
    s.to_lowercase()
}

/// A bullet a model may start a line with.
pub open spec fn is_bullet(c: char) -> bool {
    c == '-' || c == '*' || c == '•' || c == ' '
}

/// `s` without its leading bullets (`trim_start_matches(['-', '*', '•', ' '])`).
pub open spec fn strip_bullets(s: Seq<char>) -> Seq<char>
    decreases s.len(),
{
    if s.len() > 0 && is_bullet(s[0]) {
        strip_bullets(s.drop_first())
    } else {
        s
    }
}

/// How many bytes `c` takes in UTF-8.
pub open spec fn char_width(c: char) -> nat {
    let u = c as u32;
    if u < 0x80 {
        1
    } else if u < 0x800 {
        2
    } else if u < 0x10000 {
        3
    } else {
        4
    }
}

/// How many bytes `s` takes in UTF-8 (`str::len`).
pub open spec fn utf8_len(s: Seq<char>) -> nat
    decreases s.len(),
{
    if s.len() == 0 {
        0
    } else {
        utf8_len(s.drop_last()) + char_width(s.last())
    }
}

/// The cleaned text of one reply line: trimmed, bullets dropped, trimmed.
pub open spec fn clean_line(raw: Seq<char>) -> Seq<char> {
    trim(strip_bullets(trim(raw)))
}

/// A `category: memory` line read as a pair: a short one-word label before
/// the first `:` (lowercased; at most 20 bytes, no space) names the
/// category; anything else is a `fact` holding the whole line.
pub open spec fn line_pair(line: Seq<char>) -> (Seq<char>, Seq<char>) {
    match first_index(line, ':') {
        Some(k) => {
            let c = lowercase(trim(line.subrange(0, k)));
            if c.len() == 0 || utf8_len(c) > 20 || c.contains(' ') {
                ("fact"@, line)
            } else {
                (c, trim(line.subrange(k + 1, line.len() as int)))
            }
        },
        None => ("fact"@, line),
    }
}

/// What one reply line contributes: nothing for a blank or `NONE` line, or
/// a pair with an empty memory; else its pair.
pub open spec fn line_item(raw: Seq<char>) -> Seq<(Seq<char>, Seq<char>)> {
    let line = clean_line(raw);
    if line.len() == 0 || eq_ignore_case(line, "none"@) {
        seq![]
    } else if line_pair(line).1.len() == 0 {
        seq![]
    } else {
        seq![line_pair(line)]
    }
}

/// Every pair the lines hold, in order.
pub open spec fn line_items(lines: Seq<Seq<char>>) -> Seq<(Seq<char>, Seq<char>)>
    decreases lines.len(),
{
    if lines.len() == 0 {
        seq![]
    } else {
        line_items(lines.drop_last()) + line_item(lines.last())
    }
}

/// The memories a reply lists, at most [`MAX_PER_TURN`] of them: none for a
/// blank reply or `NONE`.
pub open spec fn extracted(reply: Seq<char>) -> Seq<(Seq<char>, Seq<char>)> {
    let t = trim(reply);
    if t.len() == 0 || eq_ignore_case(t, "none"@) {
        seq![]
    } else {
        let all = line_items(split_on(t, '\n'));
        if all.len() <= MAX_PER_TURN {
            all
        } else {
            all.subrange(0, MAX_PER_TURN as int)
        }
    }
}

proof fn lemma_line_items_prefix(lines: Seq<Seq<char>>, i: int, j: int)
    requires
        0 <= i <= j <= lines.len(),
    ensures
        line_items(lines.subrange(0, i)).len() <= line_items(lines.subrange(0, j)).len(),
        line_items(lines.subrange(0, j)).subrange(0, line_items(lines.subrange(0, i)).len() as int)
            == line_items(lines.subrange(0, i)),
    decreases j - i,
{
    if i < j {
        lemma_line_items_prefix(lines, i, j - 1);
        let a = line_items(lines.subrange(0, i));
        let b = line_items(lines.subrange(0, j - 1));
        assert(lines.subrange(0, j).drop_last() =~= lines.subrange(0, j - 1));
        let c = line_items(lines.subrange(0, j));
        assert(c == b + line_item(lines.subrange(0, j).last()));
        assert(c.subrange(0, a.len() as int) =~= b.subrange(0, a.len() as int));
    }
}

fn strip_bullets_exec(s: &[char]) -> (r: usize)
    ensures
        r <= s@.len(),
        s@.subrange(r as int, s@.len() as int) == strip_bullets(s@),
{
    let mut i: usize = 0;
    assert(s@.subrange(0, s@.len() as int) =~= s@);
    while i < s.len() && (s[i] == '-' || s[i] == '*' || s[i] == '•' || s[i] == ' ')
        invariant
            i <= s@.len(),
            strip_bullets(s@) == strip_bullets(s@.subrange(i as int, s@.len() as int)),
        decreases s@.len() - i,
    {
        assert(s@.subrange(i as int, s@.len() as int).drop_first() =~= s@.subrange(i + 1, s@.len() as int));
        i = i + 1;
    }
    i
}

fn clean_line_exec(raw: &Vec<char>) -> (r: Vec<char>)
    ensures
        r@ == clean_line(raw@),
{
    let (b, e) = trim_bounds(raw);
    let t = &raw.as_slice()[b..e];
    let k = strip_bullets_exec(t);
    let mut rest: Vec<char> = Vec::new();
    let mut i: usize = k;
    while i < t.len()
        invariant
            k <= i <= t@.len(),
            rest@ == t@.subrange(k as int, i as int),
        decreases t@.len() - i,
    {
        rest.push(t[i]);
        i = i + 1;
    }
    let (b2, e2) = trim_bounds(&rest);
    let mut out: Vec<char> = Vec::new();
    let mut j: usize = b2;
    while j < e2
        invariant
            b2 <= j <= e2 <= rest@.len(),
            out@ == rest@.subrange(b2 as int, j as int),
        decreases e2 - j,
    {
        out.push(rest[j]);
        j = j + 1;
    }
    out
}

fn exceeds_bytes(s: &Vec<char>, limit: u64) -> (r: bool)
    ensures
        r == (utf8_len(s@) > limit),
{
    let mut total: u64 = 0;
    let mut i: usize = 0;
    while i < s.len()
        invariant
            i <= s@.len(),
            total == utf8_len(s@.subrange(0, i as int)),
            total <= limit,
        decreases s@.len() - i,
    {
        assert(s@.subrange(0, i + 1).drop_last() =~= s@.subrange(0, i as int));
        let u = s[i] as u32;
        let w: u64 = if u < 0x80 {
            1
        } else if u < 0x800 {
            2
        } else if u < 0x10000 {
            3
        } else {
            4
        };
        if w > limit - total {
            proof {
                lemma_utf8_len_prefix(s@, i + 1);
            }
            return true;
        }
        total = total + w;
        i = i + 1;
    }
    assert(s@.subrange(0, s@.len() as int) =~= s@);
    false
}

proof fn lemma_utf8_len_prefix(s: Seq<char>, i: int)
    requires
        0 <= i <= s.len(),
    ensures
        utf8_len(s.subrange(0, i)) <= utf8_len(s),
    decreases s.len() - i,
{
    if i < s.len() {
        lemma_utf8_len_prefix(s, i + 1);
        assert(s.subrange(0, i + 1).drop_last() =~= s.subrange(0, i));
    } else {
        assert(s.subrange(0, i) =~= s);
    }
}

fn has_space(s: &Vec<char>) -> (r: bool)
    ensures
        r == s@.contains(' '),
{
    let mut i: usize = 0;
    while i < s.len()
        invariant
            i <= s@.len(),
            forall|k: int| 0 <= k < i ==> s@[k] != ' ',
        decreases s@.len() - i,
    {
        if s[i] == ' ' {
            assert(s@[i as int] == ' ');
            return true;
        }
        i = i + 1;
    }
    false
}

fn line_pair_exec(line: &Vec<char>) -> (r: (String, String))
    ensures
        r.0@ == line_pair(line@).0,
        r.1@ == line_pair(line@).1,
{
    let mut k: usize = 0;
    while k < line.len() && line[k] != ':'
        invariant
            k <= line@.len(),
            forall|j: int| 0 <= j < k ==> line@[j] != ':',
        decreases line@.len() - k,
    {
        k = k + 1;
    }
    if k == line.len() {
        proof {
            lemma_first_index_none(line@, ':');
        }
        return (owned("fact"), string_of(line.as_slice()));
    }
    proof {
        lemma_first_index_at(line@, ':', k as int);
    }
    let head = string_of(&line.as_slice()[0..k]);
    let hc = chars_of(head.as_str());
    let (hb, he) = trim_bounds(&hc);
    let label = string_of(&hc.as_slice()[hb..he]);
    let c = to_lowercase(label.as_str());
    let cc = chars_of(c.as_str());
    if cc.len() == 0 || exceeds_bytes(&cc, 20) || has_space(&cc) {
        return (owned("fact"), string_of(line.as_slice()));
    }
    let tail = &line.as_slice()[k + 1..line.len()];
    let mut tv: Vec<char> = Vec::new();
    let mut i: usize = 0;
    while i < tail.len()
        invariant
            i <= tail@.len(),
            tv@ == tail@.subrange(0, i as int),
        decreases tail@.len() - i,
    {
        tv.push(tail[i]);
        i = i + 1;
    }
    assert(tv@ == tail@);
    let (tb, te) = trim_bounds(&tv);
    (c, string_of(&tv.as_slice()[tb..te]))
}

fn line_item_exec(raw: &Vec<char>) -> (r: Option<(String, String)>)
    ensures
        match r {
            Some(p) => line_item(raw@) == seq![(p.0@, p.1@)],
            None => line_item(raw@).len() == 0,
        },
{
    let line = clean_line_exec(raw);
    if line.len() == 0 {
        return None;
    }
    let ls = string_of(line.as_slice());
    if eq_ignore_case_exec(ls.as_str(), "none") {
        return None;
    }
    let (c, t) = line_pair_exec(&line);
    if t.as_str().is_empty() {
        return None;
    }
    Some((c, t))
}

/// The view of captured pairs.
pub open spec fn pairs_of(v: Seq<(String, String)>) -> Seq<(Seq<char>, Seq<char>)> {
    Seq::new(v.len(), |i: int| (v[i].0@, v[i].1@))
}

/// Read the extraction reply into `(category, memory)` pairs. Tolerant of
/// what small models produce — bullets, a missing category, a trailing
/// `NONE` — and capped at [`MAX_PER_TURN`].
pub fn parse_extracted(reply: &str) -> (r: Vec<(String, String)>)
    ensures
        pairs_of(r@) == extracted(reply@),
{
    let cs = chars_of(reply);
    let (b, e) = trim_bounds(&cs);
    let t = string_of(&cs.as_slice()[b..e]);
    assert(t@ == trim(reply@));
    if b >= e || eq_ignore_case_exec(t.as_str(), "none") {
        let none: Vec<(String, String)> = Vec::new();
        assert(pairs_of(none@) =~= Seq::<(Seq<char>, Seq<char>)>::empty());
        return none;
    }
    let tc = chars_of(t.as_str());
    let lines = split_chars(&tc, '\n');
    let ghost ls = split_on(t@, '\n');
    assert(Seq::new(lines@.len(), |k: int| lines@[k]@) =~= ls);
    let mut out: Vec<(String, String)> = Vec::new();
    let mut i: usize = 0;
    assert(ls.subrange(0, 0) =~= Seq::<Seq<char>>::empty());
    while i < lines.len()
        invariant
            i <= lines@.len(),
            lines@.len() == ls.len(),
            forall|k: int| 0 <= k < lines@.len() ==> #[trigger] lines@[k]@ == ls[k],
            pairs_of(out@) == line_items(ls.subrange(0, i as int)),
            out@.len() < MAX_PER_TURN,
            t@ == trim(reply@),
            ls == split_on(t@, '\n'),
            trim(reply@).len() > 0,
            !eq_ignore_case(trim(reply@), "none"@),
        decreases lines@.len() - i,
    {
        let ghost before = out@;
        proof {
            assert(ls.subrange(0, i + 1).drop_last() =~= ls.subrange(0, i as int));
            assert(ls.subrange(0, i + 1).last() == lines@[i as int]@);
        }
        match line_item_exec(&lines[i]) {
            Some(p) => {
                out.push(p);
                assert(pairs_of(out@) =~= pairs_of(before) + line_item(lines@[i as int]@));
            },
            None => {
                assert(line_item(lines@[i as int]@) =~= Seq::<(Seq<char>, Seq<char>)>::empty());
                assert(pairs_of(out@) =~= pairs_of(before) + line_item(lines@[i as int]@));
            },
        }
        i = i + 1;
        if out.len() >= MAX_PER_TURN {
            proof {
                lemma_line_items_prefix(ls, i as int, ls.len() as int);
                assert(ls.subrange(0, ls.len() as int) =~= ls);
                let all = line_items(ls);
                assert(all.subrange(0, MAX_PER_TURN as int) =~= pairs_of(out@));
                if all.len() <= MAX_PER_TURN {
                    assert(all =~= pairs_of(out@));
                }
            }
            return out;
        }
    }
    assert(ls.subrange(0, ls.len() as int) =~= ls);
    out
}

} // verus!
