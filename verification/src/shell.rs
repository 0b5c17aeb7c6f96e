//! The desktop shell's own decisions: which persona opens a conversation,
//! when the system is idle enough for dream mode to work, how a failed turn
//! is closed out, and what the memory panel lists for a search, and in what
//! shape.

use vstd::prelude::*;
use vstd::string::StringExecFns;

use crate::event::{events_view, MyoEvent, MyoEventV, TurnId};
use crate::json::{jnum_i64, Json, JsonV};
use crate::llm::MYO_PERSONA;
use crate::text::{owned, trim, trimmed};

verus! {

/// The text of an optional string.
pub open spec fn opt_text(o: Option<&str>) -> Option<Seq<char>> {
    match o {
        Some(p) => Some(p@),
        None => None,
    }
}

/// The persona in force: the custom one, trimmed, when it is set and not
/// blank; otherwise the built-in persona.
pub open spec fn persona_of(custom: Option<Seq<char>>) -> Seq<char> {
    match custom {
        Some(p) => if trim(p).len() > 0 {
            trim(p)
        } else {
            MYO_PERSONA@
        },
        None => MYO_PERSONA@,
    }
}

/// Is a non-blank custom persona in force?
pub open spec fn custom_in_force(custom: Option<Seq<char>>) -> bool {
    custom matches Some(p) && trim(p).len() > 0
}

/// The system prompt every turn opens with.
pub fn effective_persona(custom: Option<&str>) -> (r: String)
    ensures
        r@ == persona_of(opt_text(custom)),
{
    match custom {
        Some(p) => {
            let t = trimmed(p);
            if t.as_str().is_empty() {
                owned(MYO_PERSONA)
            } else {
                t
            }
        },
        None => owned(MYO_PERSONA),
    }
}

/// Whether a non-blank custom persona overrides the built-in one.
pub fn persona_is_custom(custom: Option<&str>) -> (r: bool)
    ensures
        r == custom_in_force(opt_text(custom)),
{
    match custom {
        Some(p) => !trimmed(p).as_str().is_empty(),
        None => false,
    }
}

/// The override to store for an edited persona: none when the text is
/// blank (which resets to the built-in persona), the text as given otherwise.
pub fn persona_override(text: &str) -> (r: Option<String>)
    ensures
        trim(text@).len() == 0 ==> r is None,
        trim(text@).len() > 0 ==> (r matches Some(s) && s@ == text@),
{
    if trimmed(text).as_str().is_empty() {
        None
    } else {
        Some(owned(text))
    }
}

/// The persona report: the text in force, the built-in default, and whether
/// a custom override is set.
pub fn persona_report(custom: Option<&str>) -> (r: Json)
    ensures
        r@ == JsonV::Object(
            seq![
                ("effective"@, JsonV::Str(persona_of(opt_text(custom)))),
                ("default"@, JsonV::Str(MYO_PERSONA@)),
                ("custom"@, JsonV::Bool(custom_in_force(opt_text(custom)))),
            ],
        ),
{
    let m = vec![
        (owned("effective"), Json::Str(effective_persona(custom))),
        (owned("default"), Json::text(MYO_PERSONA)),
        (owned("custom"), Json::Bool(persona_is_custom(custom))),
    ];
    let ghost c = opt_text(custom);
    assert(crate::json::pairs_view(m@) =~= seq![
        ("effective"@, JsonV::Str(persona_of(c))),
        ("default"@, JsonV::Str(MYO_PERSONA@)),
        ("custom"@, JsonV::Bool(custom_in_force(c))),
    ]);
    crate::event::object(m)
}

/// Genuine downtime: no turn is running, and at least `idle_secs` have
/// passed since the last activity (times in milliseconds).
pub fn is_idle_at(any_running: bool, now_ms: i64, last_activity_ms: i64, idle_secs: u64) -> (r: bool)
    ensures
        r == (!any_running && now_ms - last_activity_ms >= idle_secs * 1000),
{
    if any_running {
        return false;
    }
    let idle_for: i128 = now_ms as i128 - last_activity_ms as i128;
    let need: i128 = idle_secs as i128 * 1000;
    idle_for >= need
}

/// The pause between dream steps: the configured interval, at least two
/// seconds.
pub fn dream_pause_secs(step_interval_secs: u64) -> (r: u64)
    ensures
        r == if step_interval_secs < 2 { 2 } else { step_interval_secs },
{
    if step_interval_secs < 2 {
        2
    } else {
        step_interval_secs
    }
}

/// The events that close out a turn that failed: the error, then the end of
/// the answer, so the interface never waits on it.
pub open spec fn failed_turn_events(turn: u64, message: Seq<char>) -> Seq<MyoEventV> {
    seq![
        MyoEventV::Progress { turn: turn, kind: "error"@, data: JsonV::Object(seq![("message"@, JsonV::Str(message))]) },
        MyoEventV::AssistantDone { turn: turn },
    ]
}

pub fn turn_failed(turn: TurnId, message: &str) -> (r: Vec<MyoEvent>)
    ensures
        events_view(r@) == failed_turn_events(turn, message@),
{
    let f = vec![(owned("message"), Json::text(message))];
    assert(crate::json::pairs_view(f@) =~= seq![("message"@, JsonV::Str(message@))]);
    let data = crate::event::object(f);
    let r = vec![
        MyoEvent::Progress { turn, kind: owned("error"), data },
        MyoEvent::AssistantDone { turn },
    ];
    assert(events_view(r@) =~= failed_turn_events(turn, message@));
    r
}

/// A memory id as the interface sends it: decimal text of an `i64`.
pub fn memory_id(id: &str) -> (r: Result<i64, String>)
    ensures
        crate::text::parse_i64(id@) matches Some(n) ==> r == Ok::<i64, String>(n),
        crate::text::parse_i64(id@) is None ==> (r matches Err(e) && e@ == "invalid memory id: "@ + id@),
{
    let cs = crate::text::chars_of(id);
    match crate::text::parse_i64_chars(&cs) {
        Some(n) => Ok(n),
        None => {
            let mut e = owned("invalid memory id: ");
            e.append(id);
            Err(e)
        },
    }
}

/// One remembered fact as the memory panel lists it.
#[derive(Debug, Clone, PartialEq)]
pub struct MemoryEntry {
    pub id: i64,
    pub text: String,
    pub category: String,
    /// Unix seconds.
    pub created_at: i64,
}

/// The panel's form of an entry: its id as text, its text, category and
/// creation time.
pub open spec fn entry_json(m: MemoryEntry) -> JsonV {
    JsonV::Object(seq![
        ("id"@, JsonV::Str(crate::text::int_text(m.id as int))),
        ("text"@, JsonV::Str(m.text@)),
        ("category"@, JsonV::Str(m.category@)),
        ("created_at"@, jnum_i64(m.created_at)),
    ])
}

/// The memory panel's list: `{memory: [...]}`, in the order given.
pub fn memory_list_json(entries: &[MemoryEntry]) -> (r: Json)
    ensures
        r@ == JsonV::Object(seq![("memory"@, JsonV::Array(Seq::new(entries@.len(), |i: int| entry_json(entries@[i]))))]),
{
    let mut items: Vec<Json> = Vec::new();
    let mut k: usize = 0;
    while k < entries.len()
        invariant
            k <= entries@.len(),
            items@.len() == k,
            forall|j: int| 0 <= j < k ==> #[trigger] items@[j]@ == entry_json(entries@[j]),
        decreases entries@.len() - k,
    {
        let m = &entries[k];
        let f = vec![
            (owned("id"), Json::Str(crate::text::int_string(m.id))),
            (owned("text"), Json::text(m.text.as_str())),
            (owned("category"), Json::text(m.category.as_str())),
            (owned("created_at"), Json::from_i64(m.created_at)),
        ];
        assert(crate::json::pairs_view(f@) =~= entry_json(*m)->Object_0);
        let o = crate::event::object(f);
        items.push(o);
        k = k + 1;
    }
    let arr = Json::Array(items);
    assert forall|j: int| 0 <= j < entries@.len() implies arr@->Array_0[j] == entry_json(entries@[j]) by {
        assert(items@[j]@ == entry_json(entries@[j]));
    }
    assert(arr@->Array_0 =~= Seq::new(entries@.len(), |i: int| entry_json(entries@[i])));
    let m = vec![(owned("memory"), arr)];
    assert(crate::json::pairs_view(m@) =~= seq![("memory"@, JsonV::Array(Seq::new(entries@.len(), |i: int| entry_json(entries@[i]))))]);
    crate::event::object(m)
}

/// An entry by value: id, text, category, creation time.
pub type EntryV = (i64, Seq<char>, Seq<char>, i64);

pub open spec fn entries_v(es: Seq<MemoryEntry>) -> Seq<EntryV> {
    Seq::new(es.len(), |i: int| (es[i].id, es[i].text@, es[i].category@, es[i].created_at))
}

/// The entries whose text contains the search, both lowercased, in order.
pub open spec fn matching(es: Seq<EntryV>, q: Seq<char>) -> Seq<EntryV>
    decreases es.len(),
{
    if es.len() == 0 {
        seq![]
    } else {
        matching(es.drop_last(), q) + if crate::text::occurs(
            crate::memory::ingest::lowercase(es.last().1),
            crate::memory::ingest::lowercase(q),
            false,
        ) {
            seq![es.last()]
        } else {
            seq![]
        }
    }
}

/// What the memory panel lists: every entry when there is no search or it
/// is blank, else the entries matching it (case-insensitively), in order.
pub open spec fn listed(es: Seq<EntryV>, query: Option<Seq<char>>) -> Seq<EntryV> {
    match query {
        Some(q) => if trim(q).len() > 0 {
            matching(es, q)
        } else {
            es
        },
        None => es,
    }
}

fn copy_entry(m: &MemoryEntry) -> (r: MemoryEntry)
    ensures
        r.id == m.id,
        r.text@ == m.text@,
        r.category@ == m.category@,
        r.created_at == m.created_at,
{
    MemoryEntry { id: m.id, text: owned(m.text.as_str()), category: owned(m.category.as_str()), created_at: m.created_at }
}

/// The memory panel's list for a search (newest first when `entries` is).
pub fn list_memories(entries: &[MemoryEntry], query: Option<&str>) -> (r: Vec<MemoryEntry>)
    ensures
        entries_v(r@) == listed(entries_v(entries@), opt_text(query)),
{
    let ghost ev = entries_v(entries@);
    let filter: Option<Vec<char>> = match query {
        Some(q) => {
            let t = trimmed(q);
            if t.as_str().is_empty() {
                None
            } else {
                Some(crate::text::chars_of(crate::memory::ingest::to_lowercase(q).as_str()))
            }
        },
        None => None,
    };
    let mut out: Vec<MemoryEntry> = Vec::new();
    let mut k: usize = 0;
    while k < entries.len()
        invariant
            k <= entries@.len(),
            ev == entries_v(entries@),
            filter is None ==> listed(ev, opt_text(query)) == ev,
            filter matches Some(lq) ==> (query matches Some(q) && lq@ == crate::memory::ingest::lowercase(q@)
                && listed(ev, opt_text(query)) == matching(ev, q@)),
            filter is None ==> entries_v(out@) == ev.subrange(0, k as int),
            filter matches Some(lq) ==> (query matches Some(q) && entries_v(out@) == matching(ev.subrange(0, k as int), q@)),
        decreases entries@.len() - k,
    {
        let m = &entries[k];
        let ghost before = entries_v(out@);
        let ghost pre = ev.subrange(0, k as int);
        let ghost post = ev.subrange(0, k + 1);
        assert(post.drop_last() =~= pre);
        assert(post.last() == ev[k as int]);
        let keep = match &filter {
            None => true,
            Some(lq) => {
                let lt = crate::text::chars_of(crate::memory::ingest::to_lowercase(m.text.as_str()).as_str());
                crate::text::occurs_exec(&lt, lq, false)
            },
        };
        if keep {
            out.push(copy_entry(m));
            assert(entries_v(out@) =~= before.push(ev[k as int]));
        } else {
            assert(entries_v(out@) =~= before);
        }
        proof {
            if filter is None {
                assert(entries_v(out@) =~= post);
            } else {
                let q = query->0;
                if keep {
                    assert(entries_v(out@) =~= matching(pre, q@) + seq![post.last()]);
                } else {
                    assert(entries_v(out@) =~= matching(pre, q@) + Seq::<EntryV>::empty());
                }
            }
        }
        k = k + 1;
    }
    assert(ev.subrange(0, entries@.len() as int) =~= ev);
    out
}

} // verus!
