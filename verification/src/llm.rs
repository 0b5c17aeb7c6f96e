//! The native brain's logic: chat messages and their wire form, the pieces
//! of one streamed OpenAI-style frame, and the reassembly of streamed tool
//! calls into whole calls. The HTTP exchange with the model engine happens
//! at the edge; everything it decides from what comes back is here.

use vstd::prelude::*;
use vstd::string::StringExecFns;

use crate::event::{events_view, pairs_view, MyoEvent, MyoEventV, TurnId};
use crate::sse::{frames, items_of, items_view, SseDecoder, SseEvent, SseItem};
use crate::json::{json_text, parsed_json, Json, JsonV};
use crate::sse::normalize::{field_u64, member_or_null};
use crate::text::{decimal, dec_digits, owned};

verus! {

/// Myo's character: the system prompt that opens every conversation,
/// written for the ear.
pub const MYO_PERSONA: &'static str = "\
You are Myo, a warm and present companion that lives entirely on the user's own \
machine. You are a voice — everything you say is read aloud by a text-to-speech \
engine, so write for the ear, not the page. Speak in real, well-formed \
sentences, and let punctuation carry the performance: commas and periods for \
breath and pacing, question marks and dashes for the natural rise and fall of \
talk. That rhythm is the difference between sounding like a friend and sounding \
like a robot reading a wall of text. Leave out whatever the ear can't hear — no \
markdown, headings, bullet or numbered lists, code blocks, emoji, or \
spelled-out URLs; if you wouldn't say it out loud, don't write it. Keep replies \
short and easy to follow by ear, going deeper only when you're asked. You're \
always listening, and you genuinely remember across conversations: when someone \
tells you something worth keeping — a preference, a detail about their life, the \
people and projects they care about — hold onto it, and let it shape how you show \
up next time, drawing on it naturally rather than announcing that you saved it. \
When you're unsure, you say so plainly.";

/// The virtual model id the engine serves embeddings under.
pub const EMBED_MODEL: &'static str = "myownllm-embed";

/// The chat model pinned for the live conversational loop: the small, fast
/// build, for latency.
pub const MYO_CHAT_MODEL: &'static str = "gemma4:e2b";

/// One tool call the model requested, assembled from the stream.
/// `arguments` is the raw JSON text the model emitted.
#[derive(Debug, Clone, PartialEq)]
pub struct ToolCall {
    pub id: String,
    pub name: String,
    pub arguments: String,
}

/// The function part of a tool call's wire form.
#[derive(Debug, Clone, PartialEq)]
pub struct FunctionWire {
    pub name: String,
    pub arguments: String,
}

/// The OpenAI wire shape of a tool call (its `type` is `kind` here).
#[derive(Debug, Clone, PartialEq)]
pub struct ToolCallWire {
    pub id: String,
    pub kind: String,
    pub function: FunctionWire,
}

impl ToolCallWire {
    /// The wire form of an assembled call: a `function` call.
    pub fn from_call(c: &ToolCall) -> (w: ToolCallWire)
        ensures
            w.id@ == c.id@,
            w.kind@ == "function"@,
            w.function.name@ == c.name@,
            w.function.arguments@ == c.arguments@,
    {
        ToolCallWire {
            id: c.id.clone(),
            kind: owned("function"),
            function: FunctionWire { name: c.name.clone(), arguments: c.arguments.clone() },
        }
    }
}

/// One message of a conversation. An assistant turn may carry the tool calls
/// it asks for, and a `tool` turn the id of the call it answers.
#[derive(Debug, Clone, PartialEq)]
pub struct ChatMessage {
    pub role: String,
    pub content: String,
    pub tool_calls: Vec<ToolCallWire>,
    pub tool_call_id: Option<String>,
}

/// A plain message: `role` and `content`, no tool fields.
pub open spec fn bare_message(m: ChatMessage, role: Seq<char>, content: Seq<char>) -> bool {
    m.role@ == role && m.content@ == content && m.tool_calls@.len() == 0 && m.tool_call_id is None
}

/// An assistant turn asking for `calls`: empty content, each call in its
/// wire form, in order.
pub open spec fn calls_message(m: ChatMessage, calls: Seq<ToolCall>) -> bool {
    &&& m.role@ == "assistant"@
    &&& m.content@.len() == 0
    &&& m.tool_call_id is None
    &&& m.tool_calls@.len() == calls.len()
    &&& forall|i: int|
        0 <= i < calls.len() ==> (#[trigger] m.tool_calls@[i]).id@ == calls[i].id@
            && m.tool_calls@[i].kind@ == "function"@ && m.tool_calls@[i].function.name@
            == calls[i].name@ && m.tool_calls@[i].function.arguments@ == calls[i].arguments@
}

/// A `tool` turn answering the call `id` with `content`.
pub open spec fn tool_message(m: ChatMessage, id: Seq<char>, content: Seq<char>) -> bool {
    &&& m.role@ == "tool"@
    &&& m.content@ == content
    &&& m.tool_calls@.len() == 0
    &&& m.tool_call_id matches Some(x) && x@ == id
}

impl ChatMessage {
    fn bare(role: &str, content: &str) -> (m: ChatMessage)
        ensures
            bare_message(m, role@, content@),
    {
        ChatMessage {
            role: owned(role),
            content: owned(content),
            tool_calls: Vec::new(),
            tool_call_id: None,
        }
    }

    pub fn system(content: &str) -> (m: ChatMessage)
        ensures
            bare_message(m, "system"@, content@),
    {
        Self::bare("system", content)
    }

    pub fn user(content: &str) -> (m: ChatMessage)
        ensures
            bare_message(m, "user"@, content@),
    {
        Self::bare("user", content)
    }

    pub fn assistant(content: &str) -> (m: ChatMessage)
        ensures
            bare_message(m, "assistant"@, content@),
    {
        Self::bare("assistant", content)
    }

    /// An assistant turn requesting tool calls; its content is empty (the
    /// answer comes on a later round).
    pub fn assistant_calls(calls: &[ToolCall]) -> (m: ChatMessage)
        ensures
            calls_message(m, calls@),
    {
        let mut wires: Vec<ToolCallWire> = Vec::new();
        let mut i: usize = 0;
        while i < calls.len()
            invariant
                i <= calls@.len(),
                wires@.len() == i,
                forall|k: int|
                    0 <= k < i ==> (#[trigger] wires@[k]).id@ == calls@[k].id@ && wires@[k].kind@
                        == "function"@ && wires@[k].function.name@ == calls@[k].name@
                        && wires@[k].function.arguments@ == calls@[k].arguments@,
            decreases calls@.len() - i,
        {
            wires.push(ToolCallWire::from_call(&calls[i]));
            i = i + 1;
        }
        ChatMessage {
            role: owned("assistant"),
            content: String::new(),
            tool_calls: wires,
            tool_call_id: None,
        }
    }

    /// The result of one tool call, fed back as a `tool` turn.
    pub fn tool(tool_call_id: &str, content: &str) -> (m: ChatMessage)
        ensures
            tool_message(m, tool_call_id@, content@),
    {
        ChatMessage {
            role: owned("tool"),
            content: owned(content),
            tool_calls: Vec::new(),
            tool_call_id: Some(owned(tool_call_id)),
        }
    }
}

/// How a streamed turn ended: a final answer, or tool calls to run first.
#[derive(Debug, Clone, PartialEq)]
pub enum TurnOutcome {
    /// The model's final answer.
    Message(String),
    /// The model asked for tool calls; the turn goes on.
    ToolCalls(Vec<ToolCall>),
}


// ---------------------------------------------------------------------------
// One streamed frame.
// ---------------------------------------------------------------------------

/// One frame's worth of a single tool call, keyed by its stream `index`:
/// the opener carries `id` and `name`, later frames append `arguments`.
#[derive(Debug, Clone, PartialEq)]
pub struct ToolCallDelta {
    pub index: usize,
    pub id: Option<String>,
    pub name: Option<String>,
    pub arguments: Option<String>,
}

pub struct ToolCallDeltaV {
    pub index: usize,
    pub id: Option<Seq<char>>,
    pub name: Option<Seq<char>>,
    pub arguments: Option<Seq<char>>,
}

impl View for ToolCallDelta {
    type V = ToolCallDeltaV;

    open spec fn view(&self) -> ToolCallDeltaV {
        ToolCallDeltaV {
            index: self.index,
            id: crate::json::opt_view(self.id),
            name: crate::json::opt_view(self.name),
            arguments: crate::json::opt_view(self.arguments),
        }
    }
}

/// The pieces of one streaming frame the loop needs.
#[derive(Debug, Clone, PartialEq)]
pub struct Frame {
    pub content: Option<String>,
    pub finish: Option<String>,
    pub tool_calls: Vec<ToolCallDelta>,
}

pub struct FrameV {
    pub content: Option<Seq<char>>,
    pub finish: Option<Seq<char>>,
    pub tool_calls: Seq<ToolCallDeltaV>,
}

impl View for Frame {
    type V = FrameV;

    open spec fn view(&self) -> FrameV {
        FrameV {
            content: crate::json::opt_view(self.content),
            finish: crate::json::opt_view(self.finish),
            tool_calls: Seq::new(self.tool_calls@.len(), |i: int| self.tool_calls@[i]@),
        }
    }
}

pub open spec fn empty_frame() -> FrameV {
    FrameV { content: None, finish: None, tool_calls: seq![] }
}

/// `choices[0]` of a frame.
pub open spec fn first_choice(v: JsonV) -> Option<JsonV> {
    match v.get("choices"@) {
        Some(JsonV::Array(a)) => if a.len() > 0 {
            Some(a[0])
        } else {
            None
        },
        _ => None,
    }
}

/// A tool call's `function.arguments` as text: a string as it is, `null`
/// as nothing, anything else as its compact JSON text (engines that send the
/// whole object at once).
pub open spec fn arg_text(a: JsonV) -> Option<Seq<char>> {
    match a {
        JsonV::Null => None,
        JsonV::Str(s) => Some(s),
        _ => Some(json_text(a)),
    }
}

/// The delta the `k`-th entry of a frame's `tool_calls` describes.
pub open spec fn delta_of(tc: JsonV, k: int) -> ToolCallDeltaV {
    let func = tc.get("function"@);
    ToolCallDeltaV {
        index: match field_u64(tc, "index"@) {
            Some(i) => i as usize,
            None => k as usize,
        },
        id: tc.str_member("id"@),
        name: match func {
            Some(f) => f.str_member("name"@),
            None => None,
        },
        arguments: match func {
            Some(f) => match f.get("arguments"@) {
                Some(a) => arg_text(a),
                None => None,
            },
            None => None,
        },
    }
}

/// What a frame's text says: content delta, finish reason and tool-call
/// fragments of `choices[0]`; nothing for text that is not JSON or has no
/// choice.
pub open spec fn frame_of(text: Seq<char>) -> FrameV {
    match parsed_json(text) {
        None => empty_frame(),
        Some(v) => match first_choice(v) {
            None => empty_frame(),
            Some(c) => {
                let d = member_or_null(c, "delta"@);
                FrameV {
                    content: d.str_member("content"@),
                    finish: c.str_member("finish_reason"@),
                    tool_calls: match d.get("tool_calls"@) {
                        Some(JsonV::Array(tcs)) => Seq::new(tcs.len(), |k: int| delta_of(tcs[k], k)),
                        _ => seq![],
                    },
                }
            },
        },
    }
}

fn first_choice_exec(v: &Json) -> (r: Option<&Json>)
    ensures
        match first_choice(v@) {
            Some(c) => r matches Some(x) && x@ == c,
            None => r is None,
        },
{
    match v.get("choices") {
        Some(Json::Array(a)) => if a.len() > 0 {
            Some(&a[0])
        } else {
            None
        },
        _ => None,
    }
}

fn opt_owned(s: Option<&str>) -> (r: Option<String>)
    ensures
        crate::json::opt_view(r) == match s {
            Some(x) => Some(x@),
            None => None,
        },
{
    match s {
        Some(x) => Some(owned(x)),
        None => None,
    }
}

fn arg_to_string(a: &Json) -> (r: Option<String>)
    ensures
        crate::json::opt_view(r) == arg_text(a@),
{
    match a {
        Json::Null => None,
        Json::Str(s) => Some(s.clone()),
        _ => Some(a.to_text()),
    }
}

fn delta_exec(tc: &Json, k: usize) -> (r: ToolCallDelta)
    ensures
        r@ == delta_of(tc@, k as int),
{
    let index = match tc.get("index") {
        Some(x) => match x.as_u64() {
            Some(i) => i as usize,
            None => k,
        },
        None => k,
    };
    let (name, arguments) = match tc.get("function") {
        Some(f) => (
            opt_owned(f.get_str("name")),
            match f.get("arguments") {
                Some(a) => arg_to_string(a),
                None => None,
            },
        ),
        None => (None, None),
    };
    ToolCallDelta { index, id: opt_owned(tc.get_str("id")), name, arguments }
}

/// Parse one streaming frame into the bits the tool loop needs. Anything
/// missing is simply absent: a keepalive or a role-only opener yields an
/// empty frame.
pub fn parse_frame(data: &str) -> (r: Frame)
    ensures
        r@ == frame_of(data@),
{
    let empty = Frame { content: None, finish: None, tool_calls: Vec::new() };
    assert(empty@.tool_calls =~= seq![]);
    let v = match Json::parse(data) {
        Some(v) => v,
        None => return empty,
    };
    let choice = match first_choice_exec(&v) {
        Some(c) => c,
        None => return empty,
    };
    let null = Json::Null;
    let delta = match choice.get("delta") {
        Some(d) => d,
        None => &null,
    };
    let mut calls: Vec<ToolCallDelta> = Vec::new();
    let ghost dv = member_or_null(choice@, "delta"@);
    assert(delta@ == dv);
    match delta.get("tool_calls") {
        Some(Json::Array(tcs)) => {
            let ghost tv = dv.get("tool_calls"@)->0->Array_0;
            let mut k: usize = 0;
            while k < tcs.len()
                invariant
                    k <= tcs@.len(),
                    tv.len() == tcs@.len(),
                    forall|j: int| 0 <= j < tcs@.len() ==> #[trigger] tv[j] == tcs@[j]@,
                    calls@.len() == k,
                    forall|j: int| 0 <= j < k ==> #[trigger] calls@[j]@ == delta_of(tv[j], j),
                decreases tcs@.len() - k,
            {
                calls.push(delta_exec(&tcs[k], k));
                k = k + 1;
            }
            let r = Frame {
                content: opt_owned(delta.get_str("content")),
                finish: opt_owned(choice.get_str("finish_reason")),
                tool_calls: calls,
            };
            assert(r@.tool_calls =~= Seq::new(tv.len(), |j: int| delta_of(tv[j], j)));
            r
        },
        _ => {
            let r = Frame {
                content: opt_owned(delta.get_str("content")),
                finish: opt_owned(choice.get_str("finish_reason")),
                tool_calls: calls,
            };
            assert(r@.tool_calls =~= seq![]);
            r
        },
    }
}

/// The assistant text a frame carries (`choices[0].delta.content`); `None`
/// for the role-only opener, the finish marker and keepalives.
pub open spec fn delta_text(text: Seq<char>) -> Option<Seq<char>> {
    match parsed_json(text) {
        Some(v) => match first_choice(v) {
            Some(c) => match c.get("delta"@) {
                Some(d) => d.str_member("content"@),
                None => None,
            },
            None => None,
        },
        None => None,
    }
}

/// Pull the assistant text delta out of one streaming frame.
pub fn openai_delta(data: &str) -> (r: Option<String>)
    ensures
        crate::json::opt_view(r) == delta_text(data@),
{
    let v = match Json::parse(data) {
        Some(v) => v,
        None => return None,
    };
    match first_choice_exec(&v) {
        Some(c) => match c.get("delta") {
            Some(d) => opt_owned(d.get_str("content")),
            None => None,
        },
        None => None,
    }
}

// ---------------------------------------------------------------------------
// Reassembling tool calls.
// ---------------------------------------------------------------------------

/// A row of the accumulator: `(index, id, name, arguments)`.
pub type RowV = (usize, Seq<char>, Seq<char>, Seq<char>);

/// The row for stream index `idx`, if one was opened.
pub open spec fn row_pos(rows: Seq<RowV>, idx: usize) -> Option<int>
    decreases rows.len(),
{
    if rows.len() == 0 {
        None
    } else if rows.last().0 == idx {
        Some(rows.len() - 1)
    } else {
        row_pos(rows.drop_last(), idx)
    }
}

/// One delta folded in: its index's row (opened at the end, empty, when the
/// index is new) takes the delta's id and name when present and appends its
/// arguments.
pub open spec fn feed_rows(rows: Seq<RowV>, d: ToolCallDeltaV) -> Seq<RowV> {
    let base = match row_pos(rows, d.index) {
        Some(k) => rows,
        None => rows.push((d.index, seq![], seq![], seq![])),
    };
    let k = match row_pos(rows, d.index) {
        Some(k) => k,
        None => rows.len() as int,
    };
    let r = base[k];
    base.update(
        k,
        (
            r.0,
            match d.id {
                Some(x) => x,
                None => r.1,
            },
            match d.name {
                Some(x) => x,
                None => r.2,
            },
            r.3 + match d.arguments {
                Some(x) => x,
                None => seq![],
            },
        ),
    )
}

/// The calls the rows assemble into, in first-seen order: rows that never
/// got a name are dropped, and a missing id becomes `call_<index>`.
pub open spec fn assembled(rows: Seq<RowV>) -> Seq<(Seq<char>, Seq<char>, Seq<char>)>
    decreases rows.len(),
{
    if rows.len() == 0 {
        seq![]
    } else {
        let r = rows[0];
        let rest = assembled(rows.drop_first());
        if r.2.len() == 0 {
            rest
        } else {
            seq![(if r.1.len() == 0 { "call_"@ + dec_digits(r.0 as nat) } else { r.1 }, r.2, r.3)]
                + rest
        }
    }
}

pub open spec fn calls_view(v: Seq<ToolCall>) -> Seq<(Seq<char>, Seq<char>, Seq<char>)> {
    Seq::new(v.len(), |i: int| (v[i].id@, v[i].name@, v[i].arguments@))
}

/// Reassembles streamed tool-call deltas into whole calls, keeping the order
/// in which each index was first seen so parallel calls come back stably.
pub struct ToolCallAccumulator {
    rows: Vec<(usize, String, String, String)>,
    fed: Ghost<Seq<ToolCallDeltaV>>,
}

impl ToolCallAccumulator {
    /// The rows so far.
    pub closed spec fn rows(&self) -> Seq<RowV> {
        Seq::new(self.rows@.len(), |i: int| (self.rows@[i].0, self.rows@[i].1@, self.rows@[i].2@, self.rows@[i].3@))
    }

    /// The deltas fed so far, in order.
    pub closed spec fn fed(&self) -> Seq<ToolCallDeltaV> {
        self.fed@
    }

    /// The rows are exactly the deltas fed so far, folded in from nothing —
    /// true of every accumulator made by [`Self::new`] and fed by
    /// [`Self::feed`].
    pub open spec fn from_stream(&self) -> bool {
        self.rows() == feed_all(seq![], self.fed())
    }

    pub fn new() -> (a: Self)
        ensures
            a.rows() == Seq::<RowV>::empty(),
            a.fed() == Seq::<ToolCallDeltaV>::empty(),
            a.from_stream(),
    {
        let fed: Ghost<Seq<ToolCallDeltaV>> = Ghost(Seq::empty());
        let a = ToolCallAccumulator { rows: Vec::new(), fed };
        assert(a.rows() =~= Seq::<RowV>::empty());
        a
    }

    /// Fold one delta in.
    pub fn feed(&mut self, d: ToolCallDelta)
        ensures
            final(self).rows() == feed_rows(old(self).rows(), d@),
            final(self).fed() == old(self).fed().push(d@),
            old(self).from_stream() ==> final(self).from_stream(),
    {
        proof {
            lemma_feed_all_push(seq![], self.fed@, d@);
        }
        let ghost dv = d@;
        self.fed = Ghost(self.fed@.push(dv));
        let ghost rows0 = self.rows();
        let mut k: usize = self.rows.len();
        assert(rows0.subrange(0, rows0.len() as int) =~= rows0);
        while k > 0 && self.rows[k - 1].0 != d.index
            invariant
                k <= self.rows@.len(),
                rows0 == self.rows(),
                row_pos(rows0, d.index) == row_pos(rows0.subrange(0, k as int), d.index),
            decreases k,
        {
            assert(rows0.subrange(0, k as int).drop_last() =~= rows0.subrange(0, k - 1));
            k = k - 1;
        }
        let pos: usize = if k == 0 {
            assert(row_pos(rows0.subrange(0, 0), d.index) is None);
            self.rows.push((d.index, String::new(), String::new(), String::new()));
            assert(self.rows() =~= rows0.push((d.index, seq![], seq![], seq![])));
            self.rows.len() - 1
        } else {
            k - 1
        };
        let ghost base = self.rows();
        let i0 = self.rows[pos].0;
        let id0 = self.rows[pos].1.clone();
        let name0 = self.rows[pos].2.clone();
        let args0 = self.rows[pos].3.clone();
        let id = match d.id {
            Some(x) => x,
            None => id0,
        };
        let name = match d.name {
            Some(x) => x,
            None => name0,
        };
        let mut args = args0;
        match d.arguments {
            Some(x) => args.append(x.as_str()),
            None => {
                assert(args@ + Seq::<char>::empty() =~= args@);
            },
        }
        self.rows.set(pos, (i0, id, name, args));
        assert(self.rows() =~= feed_rows(rows0, d@));
    }

    /// The assembled calls. For an accumulator fed from nothing, these are
    /// one call per stream index whose last name is non-empty, in the order
    /// the indices were first seen, each with that name, the index's argument
    /// fragments joined in stream order, and its last id (or `call_<index>`
    /// when none came or the last was empty).
    pub fn finish(self) -> (r: Vec<ToolCall>)
        ensures
            calls_view(r@) == assembled(self.rows()),
            self.from_stream() ==> calls_view(r@) == calls_for(first_seen(self.fed()), self.fed()),
    {
        proof {
            law_streamed_calls_assemble(self.fed@);
        }
        let ghost rows = self.rows();
        let mut out: Vec<ToolCall> = Vec::new();
        let mut i: usize = 0;
        assert(rows.subrange(0, rows.len() as int) =~= rows);
        while i < self.rows.len()
            invariant
                i <= self.rows@.len(),
                rows == self.rows(),
                calls_view(out@) + assembled(rows.subrange(i as int, rows.len() as int)) == assembled(rows),
            decreases self.rows@.len() - i,
        {
            let ghost here = rows.subrange(i as int, rows.len() as int);
            assert(here.drop_first() =~= rows.subrange(i + 1, rows.len() as int));
            assert(here[0] == rows[i as int]);
            let idx = self.rows[i].0;
            let id = self.rows[i].1.clone();
            let name = self.rows[i].2.clone();
            let args = self.rows[i].3.clone();
            if !name.as_str().is_empty() {
                let id = if id.as_str().is_empty() {
                    let mut s = owned("call_");
                    let n = decimal(idx as u64);
                    s.append(n.as_str());
                    s
                } else {
                    id
                };
                let ghost before = calls_view(out@);
                out.push(ToolCall { id, name, arguments: args });
                assert(calls_view(out@) =~= before.push(calls_view(out@).last()));
                assert(calls_view(out@) + assembled(rows.subrange(i + 1, rows.len() as int)) =~= before + assembled(here));
            } else {
                assert(assembled(here) == assembled(rows.subrange(i + 1, rows.len() as int)));
            }
            i = i + 1;
        }
        assert(rows.subrange(i as int, rows.len() as int) =~= Seq::<RowV>::empty());
        assert(calls_view(out@) + Seq::<(Seq<char>, Seq<char>, Seq<char>)>::empty() =~= calls_view(out@));
        out
    }
}


/// Every delta folded in, in order.
pub open spec fn feed_all(rows: Seq<RowV>, ds: Seq<ToolCallDeltaV>) -> Seq<RowV>
    decreases ds.len(),
{
    if ds.len() == 0 {
        rows
    } else {
        feed_all(feed_rows(rows, ds[0]), ds.drop_first())
    }
}

proof fn lemma_feed_all_push(rows: Seq<RowV>, ds: Seq<ToolCallDeltaV>, d: ToolCallDeltaV)
    ensures
        feed_all(rows, ds.push(d)) == feed_rows(feed_all(rows, ds), d),
    decreases ds.len(),
{
    if ds.len() > 0 {
        assert(ds.push(d)[0] == ds[0]);
        assert(ds.push(d).drop_first() =~= ds.drop_first().push(d));
        lemma_feed_all_push(feed_rows(rows, ds[0]), ds.drop_first(), d);
    } else {
        assert(ds.push(d)[0] == d);
        assert(ds.push(d).drop_first() =~= Seq::<ToolCallDeltaV>::empty());
        assert(feed_all(feed_rows(rows, d), seq![]) == feed_rows(rows, d));
    }
}

/// The text of what streamed so far and the calls being assembled: the
/// fold of one streamed tool-enabled turn.
pub struct ToolStream {
    content: String,
    calls: ToolCallAccumulator,
}

impl ToolStream {
    /// The answer text so far.
    pub closed spec fn text(&self) -> Seq<char> {
        self.content@
    }

    /// The tool-call rows so far.
    pub closed spec fn rows(&self) -> Seq<RowV> {
        self.calls.rows()
    }

    pub fn new() -> (t: Self)
        ensures
            t.text().len() == 0,
            t.rows() == Seq::<RowV>::empty(),
    {
        ToolStream { content: String::new(), calls: ToolCallAccumulator::new() }
    }

    /// Absorb one streamed `data:` payload. Returns the answer text it
    /// carries when that is non-empty — to be emitted as a delta — after
    /// adding it to the answer; its tool-call fragments are folded in.
    pub fn absorb(&mut self, data: &str) -> (r: Option<String>)
        ensures
            ({
                let f = frame_of(data@);
                &&& final(self).rows() == feed_all(old(self).rows(), f.tool_calls)
                &&& match f.content {
                    Some(c) => if c.len() > 0 {
                        final(self).text() == old(self).text() + c && (r matches Some(x) && x@ == c)
                    } else {
                        final(self).text() == old(self).text() && r is None
                    },
                    None => final(self).text() == old(self).text() && r is None,
                }
            }),
    {
        let frame = parse_frame(data);
        let ghost fv = frame@;
        let mut deltas = frame.tool_calls;
        let ghost ds = fv.tool_calls;
        let ghost rows0 = self.calls.rows();
        let mut k: usize = 0;
        let n = deltas.len();
        while deltas.len() > 0
            invariant
                n == ds.len(),
                k + deltas@.len() == n,
                forall|j: int| 0 <= j < deltas@.len() ==> #[trigger] deltas@[j]@ == ds[k + j],
                self.calls.rows() == feed_all(rows0, ds.subrange(0, k as int)),
                self.content@ == old(self).content@,
            decreases deltas@.len(),
        {
            let d = deltas.remove(0);
            proof {
                assert(ds.subrange(0, k + 1) =~= ds.subrange(0, k as int).push(ds[k as int]));
                lemma_feed_all_push(rows0, ds.subrange(0, k as int), ds[k as int]);
            }
            self.calls.feed(d);
            k = k + 1;
        }
        assert(ds.subrange(0, k as int) =~= ds);
        match frame.content {
            Some(text) => if !text.as_str().is_empty() {
                self.content.append(text.as_str());
                Some(text)
            } else {
                None
            },
            None => None,
        }
    }

    /// How the turn ended: its tool calls when any were assembled, else its
    /// answer.
    pub fn finish(self) -> (r: TurnOutcome)
        ensures
            assembled(self.rows()).len() == 0 ==> (r matches TurnOutcome::Message(m) && m@ == self.text()),
            assembled(self.rows()).len() > 0 ==> (r matches TurnOutcome::ToolCalls(c) && calls_view(c@) == assembled(self.rows())),
    {
        let calls = self.calls.finish();
        if calls.len() == 0 {
            TurnOutcome::Message(self.content)
        } else {
            TurnOutcome::ToolCalls(calls)
        }
    }
}

// ---------------------------------------------------------------------------
// One streamed tool-enabled turn, chunk by chunk.
// ---------------------------------------------------------------------------

/// The data payloads of decoded items, up to the first `[DONE]`.
pub open spec fn data_before_done(items: Seq<SseEvent>) -> Seq<Seq<char>>
    decreases items.len(),
{
    if items.len() == 0 {
        seq![]
    } else {
        match items[0] {
            SseEvent::Done => seq![],
            SseEvent::Data(s) => seq![s] + data_before_done(items.drop_first()),
        }
    }
}

/// The answer text a payload carries (nothing when it carries none).
pub open spec fn frame_content(s: Seq<char>) -> Seq<char> {
    match frame_of(s).content {
        Some(c) => c,
        None => seq![],
    }
}

/// The answer text of payloads, in order.
pub open spec fn frames_text(ps: Seq<Seq<char>>) -> Seq<char>
    decreases ps.len(),
{
    if ps.len() == 0 {
        seq![]
    } else {
        frames_text(ps.drop_last()) + frame_content(ps.last())
    }
}

/// The tool-call rows after folding in every fragment of the payloads.
pub open spec fn frames_rows(rows: Seq<RowV>, ps: Seq<Seq<char>>) -> Seq<RowV>
    decreases ps.len(),
{
    if ps.len() == 0 {
        rows
    } else {
        feed_all(frames_rows(rows, ps.drop_last()), frame_of(ps.last()).tool_calls)
    }
}

/// The delta events payloads yield: one per payload with non-empty text.
pub open spec fn delta_events(ps: Seq<Seq<char>>, turn: u64) -> Seq<MyoEventV>
    decreases ps.len(),
{
    if ps.len() == 0 {
        seq![]
    } else {
        delta_events(ps.drop_last(), turn) + (if frame_content(ps.last()).len() > 0 {
            seq![MyoEventV::AssistantDelta { turn: turn, text: frame_content(ps.last()) }]
        } else {
            seq![]
        })
    }
}

/// A streamed tool-enabled turn read from raw network chunks: the frames
/// are decoded, their text is emitted as deltas and kept, their tool-call
/// fragments are reassembled, and reading stops at `[DONE]`.
pub struct ChatStream {
    decoder: SseDecoder,
    done: bool,
    turn: TurnId,
    tools: ToolStream,
}

impl ChatStream {
    pub closed spec fn buffered(&self) -> Seq<u8> {
        self.decoder.buffered()
    }

    pub closed spec fn finished(&self) -> bool {
        self.done
    }

    pub closed spec fn turn_id(&self) -> TurnId {
        self.turn
    }

    /// The answer text so far.
    pub closed spec fn text(&self) -> Seq<char> {
        self.tools.text()
    }

    /// The tool-call rows so far.
    pub closed spec fn rows(&self) -> Seq<RowV> {
        self.tools.rows()
    }

    pub fn new(turn: TurnId) -> (c: Self)
        ensures
            c.buffered() == Seq::<u8>::empty(),
            !c.finished(),
            c.turn_id() == turn,
            c.text().len() == 0,
            c.rows() == Seq::<RowV>::empty(),
    {
        ChatStream { decoder: SseDecoder::new(), done: false, turn, tools: ToolStream::new() }
    }

    /// Has the stream said `[DONE]`? The edge stops reading then.
    pub fn is_done(&self) -> (r: bool)
        ensures
            r == self.finished(),
    {
        self.done
    }

    /// Take in one network chunk and return the deltas to emit. Once
    /// `[DONE]` has been seen, further chunks are ignored.
    pub fn absorb(&mut self, chunk: &[u8]) -> (r: Vec<MyoEvent>)
        ensures
            final(self).turn_id() == old(self).turn_id(),
            old(self).finished() ==> r@.len() == 0 && *final(self) == *old(self),
            !old(self).finished() ==> ({
                let items = items_of(frames(old(self).buffered() + chunk@).0);
                let ps = data_before_done(items);
                &&& events_view(r@) == delta_events(ps, old(self).turn_id())
                &&& final(self).text() == old(self).text() + frames_text(ps)
                &&& final(self).rows() == frames_rows(old(self).rows(), ps)
                &&& final(self).finished() == crate::brain::has_done(items)
                &&& final(self).buffered() == frames(old(self).buffered() + chunk@).1
            }),
    {
        let mut out: Vec<MyoEvent> = Vec::new();
        if self.done {
            return out;
        }
        let ghost fr = frames(self.decoder.buffered() + chunk@);
        let ghost text0 = self.tools.text();
        let ghost rows0 = self.tools.rows();
        let mut items = self.decoder.feed(chunk);
        let ghost all = items_view(items@);
        let ghost turn = self.turn;
        let ghost mut seen: Seq<Seq<char>> = seq![];
        let n = items.len();
        let mut k: usize = 0;
        assert(all.subrange(0, n as int) =~= all);
        assert(events_view(out@) =~= Seq::<MyoEventV>::empty());
        assert(text0 + frames_text(seen) =~= text0);
        while items.len() > 0
            invariant
                n == all.len(),
                all == items_of(fr.0),
                fr == frames(old(self).buffered() + chunk@),
                self.decoder.buffered() == fr.1,
                turn == old(self).turn,
                !old(self).done,
                k + items@.len() == n,
                forall|j: int| 0 <= j < items@.len() ==> #[trigger] items@[j]@ == all[k + j],
                data_before_done(all) == seen + data_before_done(all.subrange(k as int, n as int)),
                events_view(out@) == delta_events(seen, turn),
                self.tools.text() == text0 + frames_text(seen),
                self.tools.rows() == frames_rows(rows0, seen),
                text0 == old(self).tools.text(),
                rows0 == old(self).tools.rows(),
                forall|j: int| 0 <= j < k ==> !(#[trigger] all[j] is Done),
                self.turn == turn,
                !self.done,
            decreases items@.len(),
        {
            let ghost rest = all.subrange(k as int, n as int);
            assert(rest[0] == all[k as int]);
            assert(rest.drop_first() =~= all.subrange(k + 1, n as int));
            let item = items.remove(0);
            assert(item@ == all[k as int]);
            match item {
                SseItem::Done => {
                    self.done = true;
                    assert(all[k as int] is Done);
                    assert(data_before_done(rest) =~= Seq::<Seq<char>>::empty());
                    assert(data_before_done(all) =~= seen);
                    return out;
                },
                SseItem::Data(s) => {
                    let ghost prev = seen;
                    proof {
                        seen = seen.push(s@);
                        assert(seen.drop_last() =~= prev);
                        assert(prev + (seq![s@] + data_before_done(all.subrange(k + 1, n as int))) =~= seen + data_before_done(all.subrange(k + 1, n as int)));
                    }
                    let ghost before = events_view(out@);
                    let piece = self.tools.absorb(s.as_str());
                    assert(self.tools.text() =~= text0 + frames_text(seen));
                    match piece {
                        Some(t) => {
                            out.push(MyoEvent::AssistantDelta { turn: self.turn, text: t });
                            assert(events_view(out@) =~= delta_events(seen, turn));
                        },
                        None => {
                            assert(events_view(out@) =~= delta_events(seen, turn));
                        },
                    }
                },
            }
            k = k + 1;
        }
        assert(all.subrange(n as int, n as int) =~= Seq::<SseEvent>::empty());
        assert(data_before_done(all) =~= seen);
        out
    }

    /// How the turn ended: its tool calls when any were assembled, else its
    /// answer.
    pub fn finish(self) -> (r: TurnOutcome)
        ensures
            assembled(self.rows()).len() == 0 ==> (r matches TurnOutcome::Message(m) && m@ == self.text()),
            assembled(self.rows()).len() > 0 ==> (r matches TurnOutcome::ToolCalls(c) && calls_view(c@) == assembled(self.rows())),
    {
        self.tools.finish()
    }
}

proof fn lemma_data_before_done_append(i1: Seq<SseEvent>, i2: Seq<SseEvent>)
    ensures
        !crate::brain::has_done(i1) ==> data_before_done(i1 + i2) == data_before_done(i1) + data_before_done(i2),
        crate::brain::has_done(i1) ==> data_before_done(i1 + i2) == data_before_done(i1),
    decreases i1.len(),
{
    if i1.len() == 0 {
        assert(i1 + i2 =~= i2);
        assert(data_before_done(i1) + data_before_done(i2) =~= data_before_done(i2));
    } else {
        assert((i1 + i2)[0] == i1[0]);
        assert((i1 + i2).drop_first() =~= i1.drop_first() + i2);
        lemma_data_before_done_append(i1.drop_first(), i2);
        if crate::brain::has_done(i1.drop_first()) {
            let j = choose|j: int| 0 <= j < i1.drop_first().len() && i1.drop_first()[j] is Done;
            assert(i1[j + 1] is Done);
        }
        if crate::brain::has_done(i1) && !(i1[0] is Done) {
            let j = choose|j: int| 0 <= j < i1.len() && i1[j] is Done;
            assert(i1.drop_first()[j - 1] is Done);
        }
        if !crate::brain::has_done(i1) {
            assert(!(i1[0] is Done));
            assert forall|j: int| 0 <= j < i1.drop_first().len() implies !(#[trigger] i1.drop_first()[j] is Done) by {
                assert(i1.drop_first()[j] == i1[j + 1]);
            }
        }
        match i1[0] {
            SseEvent::Done => {},
            SseEvent::Data(x) => {
                assert(seq![x] + (data_before_done(i1.drop_first()) + data_before_done(i2)) =~= (seq![x] + data_before_done(i1.drop_first())) + data_before_done(i2));
            },
        }
    }
}

proof fn lemma_has_done_append(i1: Seq<SseEvent>, i2: Seq<SseEvent>)
    ensures
        crate::brain::has_done(i1 + i2) == (crate::brain::has_done(i1) || crate::brain::has_done(i2)),
{
    if crate::brain::has_done(i1) {
        let j = choose|j: int| 0 <= j < i1.len() && i1[j] is Done;
        assert((i1 + i2)[j] == i1[j]);
    }
    if crate::brain::has_done(i2) {
        let j = choose|j: int| 0 <= j < i2.len() && i2[j] is Done;
        assert((i1 + i2)[i1.len() + j] == i2[j]);
    }
    if crate::brain::has_done(i1 + i2) {
        let j = choose|j: int| 0 <= j < (i1 + i2).len() && (i1 + i2)[j] is Done;
        if j < i1.len() {
            assert(i1[j] is Done);
        } else {
            assert(i2[j - i1.len()] is Done);
        }
    }
}

proof fn lemma_frames_fold_append(ps1: Seq<Seq<char>>, ps2: Seq<Seq<char>>, rows: Seq<RowV>, turn: u64)
    ensures
        delta_events(ps1 + ps2, turn) == delta_events(ps1, turn) + delta_events(ps2, turn),
        frames_text(ps1 + ps2) == frames_text(ps1) + frames_text(ps2),
        frames_rows(rows, ps1 + ps2) == frames_rows(frames_rows(rows, ps1), ps2),
    decreases ps2.len(),
{
    if ps2.len() == 0 {
        assert(ps1 + ps2 =~= ps1);
        assert(delta_events(ps1, turn) + delta_events(ps2, turn) =~= delta_events(ps1, turn));
        assert(frames_text(ps1) + frames_text(ps2) =~= frames_text(ps1));
    } else {
        assert((ps1 + ps2).drop_last() =~= ps1 + ps2.drop_last());
        assert((ps1 + ps2).last() == ps2.last());
        lemma_frames_fold_append(ps1, ps2.drop_last(), rows, turn);
        let tail = if frame_content(ps2.last()).len() > 0 {
            seq![MyoEventV::AssistantDelta { turn: turn, text: frame_content(ps2.last()) }]
        } else {
            seq![]
        };
        assert(delta_events(ps1, turn) + delta_events(ps2.drop_last(), turn) + tail =~= delta_events(ps1, turn) + (delta_events(ps2.drop_last(), turn) + tail));
        assert(frames_text(ps1) + frames_text(ps2.drop_last()) + frame_content(ps2.last()) =~= frames_text(ps1) + (frames_text(ps2.drop_last()) + frame_content(ps2.last())));
    }
}

/// Feeding a tool-enabled stream in two chunks yields the same deltas, the
/// same answer text, the same tool-call rows and the same end as feeding it
/// in one: where the network split the stream does not matter. (Once the
/// first chunk reaches `[DONE]` the second is ignored, and the whole stream
/// stops at that same `[DONE]`.)
pub proof fn law_chat_chunking_is_invisible(buffered: Seq<u8>, a: Seq<u8>, b: Seq<u8>, rows: Seq<RowV>, turn: u64)
    ensures
        ({
            let first = items_of(frames(buffered + a).0);
            let second = items_of(frames(frames(buffered + a).1 + b).0);
            let whole = items_of(frames(buffered + (a + b)).0);
            let p1 = data_before_done(first);
            let p2 = data_before_done(second);
            let pw = data_before_done(whole);
            &&& !crate::brain::has_done(first) ==> {
                &&& delta_events(pw, turn) == delta_events(p1, turn) + delta_events(p2, turn)
                &&& frames_text(pw) == frames_text(p1) + frames_text(p2)
                &&& frames_rows(rows, pw) == frames_rows(frames_rows(rows, p1), p2)
                &&& crate::brain::has_done(whole) == crate::brain::has_done(second)
            }
            &&& crate::brain::has_done(first) ==> pw == p1 && crate::brain::has_done(whole)
        }),
{
    crate::sse::law_chunking_is_invisible(buffered, a, b);
    let first = items_of(frames(buffered + a).0);
    let second = items_of(frames(frames(buffered + a).1 + b).0);
    lemma_data_before_done_append(first, second);
    lemma_has_done_append(first, second);
    lemma_frames_fold_append(data_before_done(first), data_before_done(second), rows, turn);
}

// ---------------------------------------------------------------------------
// The request body.
// ---------------------------------------------------------------------------

/// The wire form of a tool call: `{id, type, function: {name, arguments}}`.
pub open spec fn wire_json(w: ToolCallWire) -> JsonV {
    JsonV::Object(seq![
        ("id"@, JsonV::Str(w.id@)),
        ("type"@, JsonV::Str(w.kind@)),
        ("function"@, JsonV::Object(seq![("name"@, JsonV::Str(w.function.name@)), ("arguments"@, JsonV::Str(w.function.arguments@))])),
    ])
}

/// The wire form of a message: `role` and `content`, then `tool_calls` only
/// when there are any and `tool_call_id` only when set.
pub open spec fn message_json(m: ChatMessage) -> JsonV {
    JsonV::Object(
        seq![("role"@, JsonV::Str(m.role@)), ("content"@, JsonV::Str(m.content@))]
            + (if m.tool_calls@.len() > 0 {
            seq![("tool_calls"@, JsonV::Array(Seq::new(m.tool_calls@.len(), |i: int| wire_json(m.tool_calls@[i]))))]
        } else {
            seq![]
        }) + match m.tool_call_id {
            Some(id) => seq![("tool_call_id"@, JsonV::Str(id@))],
            None => seq![],
        },
    )
}

fn wire_to_json(w: &ToolCallWire) -> (r: Json)
    ensures
        r@ == wire_json(*w),
{
    let f = vec![(owned("name"), Json::Str(w.function.name.clone())), (owned("arguments"), Json::Str(w.function.arguments.clone()))];
    assert(pairs_view(f@) =~= seq![("name"@, JsonV::Str(w.function.name@)), ("arguments"@, JsonV::Str(w.function.arguments@))]);
    let members = vec![
        (owned("id"), Json::Str(w.id.clone())),
        (owned("type"), Json::Str(w.kind.clone())),
        (owned("function"), crate::event::object(f)),
    ];
    assert(pairs_view(members@) =~= wire_json(*w)->Object_0);
    crate::event::object(members)
}

/// The JSON a message is sent as.
pub fn message_to_json(m: &ChatMessage) -> (r: Json)
    ensures
        r@ == message_json(*m),
{
    let mut members: Vec<(String, Json)> = vec![(owned("role"), Json::Str(m.role.clone())), (owned("content"), Json::Str(m.content.clone()))];
    let ghost head = seq![("role"@, JsonV::Str(m.role@)), ("content"@, JsonV::Str(m.content@))];
    assert(pairs_view(members@) =~= head);
    if m.tool_calls.len() > 0 {
        let mut ws: Vec<Json> = Vec::new();
        let mut i: usize = 0;
        while i < m.tool_calls.len()
            invariant
                i <= m.tool_calls@.len(),
                ws@.len() == i,
                forall|k: int| 0 <= k < i ==> #[trigger] ws@[k]@ == wire_json(m.tool_calls@[k]),
            decreases m.tool_calls@.len() - i,
        {
            ws.push(wire_to_json(&m.tool_calls[i]));
            i = i + 1;
        }
        let arr = Json::Array(ws);
        assert forall|k: int| 0 <= k < m.tool_calls@.len() implies arr@->Array_0[k] == wire_json(m.tool_calls@[k]) by {
            assert(ws@[k]@ == wire_json(m.tool_calls@[k]));
        }
        assert(arr@->Array_0 =~= Seq::new(m.tool_calls@.len(), |k: int| wire_json(m.tool_calls@[k])));
        let ghost before = pairs_view(members@);
        members.push((owned("tool_calls"), arr));
        assert(pairs_view(members@) =~= before.push(("tool_calls"@, JsonV::Array(Seq::new(m.tool_calls@.len(), |k: int| wire_json(m.tool_calls@[k]))))));
    }
    match &m.tool_call_id {
        Some(id) => {
            let ghost before = pairs_view(members@);
            members.push((owned("tool_call_id"), Json::Str(id.clone())));
            assert(pairs_view(members@) =~= before.push(("tool_call_id"@, JsonV::Str(id@))));
        },
        None => {},
    }
    assert(pairs_view(members@) =~= message_json(*m)->Object_0);
    crate::event::object(members)
}

/// The messages of a conversation as JSON.
pub open spec fn messages_json(ms: Seq<ChatMessage>) -> JsonV {
    JsonV::Array(Seq::new(ms.len(), |i: int| message_json(ms[i])))
}

/// The body of a chat-completions request: `{model, messages, stream}`,
/// plus `tools` when any are offered.
pub open spec fn chat_body(model: Seq<char>, ms: Seq<ChatMessage>, stream: bool, tools: Seq<JsonV>) -> JsonV {
    JsonV::Object(
        seq![("model"@, JsonV::Str(model)), ("messages"@, messages_json(ms)), ("stream"@, JsonV::Bool(stream))]
            + if tools.len() > 0 {
            seq![("tools"@, JsonV::Array(tools))]
        } else {
            seq![]
        },
    )
}

/// Build a chat-completions request body.
pub fn chat_request(model: &str, messages: &[ChatMessage], stream: bool, tools: &[Json]) -> (r: Json)
    ensures
        r@ == chat_body(model@, messages@, stream, Seq::new(tools@.len(), |i: int| tools@[i]@)),
{
    let mut ms: Vec<Json> = Vec::new();
    let mut i: usize = 0;
    while i < messages.len()
        invariant
            i <= messages@.len(),
            ms@.len() == i,
            forall|k: int| 0 <= k < i ==> #[trigger] ms@[k]@ == message_json(messages@[k]),
        decreases messages@.len() - i,
    {
        ms.push(message_to_json(&messages[i]));
        i = i + 1;
    }
    let arr = Json::Array(ms);
    assert(arr@ == messages_json(messages@)) by {
        assert forall|k: int| 0 <= k < messages@.len() implies arr@->Array_0[k] == message_json(messages@[k]) by {
            assert(ms@[k]@ == message_json(messages@[k]));
        }
        assert(arr@->Array_0 =~= messages_json(messages@)->Array_0);
    }
    let mut members: Vec<(String, Json)> = vec![
        (owned("model"), Json::text(model)),
        (owned("messages"), arr),
        (owned("stream"), Json::Bool(stream)),
    ];
    let ghost tv = Seq::new(tools@.len(), |i: int| tools@[i]@);
    assert(pairs_view(members@) =~= seq![("model"@, JsonV::Str(model@)), ("messages"@, messages_json(messages@)), ("stream"@, JsonV::Bool(stream))]);
    if tools.len() > 0 {
        let mut ts: Vec<Json> = Vec::new();
        let mut k: usize = 0;
        while k < tools.len()
            invariant
                k <= tools@.len(),
                ts@.len() == k,
                forall|j: int| 0 <= j < k ==> #[trigger] ts@[j]@ == tools@[j]@,
            decreases tools@.len() - k,
        {
            ts.push(tools[k].duplicate());
            k = k + 1;
        }
        let t = Json::Array(ts);
        assert forall|j: int| 0 <= j < tools@.len() implies t@->Array_0[j] == tv[j] by {
            assert(ts@[j]@ == tools@[j]@);
        }
        assert(t@->Array_0 =~= tv);
        let ghost before = pairs_view(members@);
        members.push((owned("tools"), t));
        assert(pairs_view(members@) =~= before.push(("tools"@, JsonV::Array(tv))));
    }
    assert(pairs_view(members@) =~= chat_body(model@, messages@, stream, tv)->Object_0);
    crate::event::object(members)
}

/// The text of a non-streaming completion: `choices[0].message.content`,
/// or empty.
pub open spec fn completion_text(v: JsonV) -> Seq<char> {
    match first_choice(v) {
        Some(c) => match c.get("message"@) {
            Some(m) => match m.str_member("content"@) {
                Some(t) => t,
                None => seq![],
            },
            None => seq![],
        },
        None => seq![],
    }
}

/// Read the answer out of a non-streaming completion reply.
pub fn completion_content(v: &Json) -> (r: String)
    ensures
        r@ == completion_text(v@),
{
    match first_choice_exec(v) {
        Some(c) => match c.get("message") {
            Some(m) => match m.get_str("content") {
                Some(t) => owned(t),
                None => String::new(),
            },
            None => String::new(),
        },
        None => String::new(),
    }
}

/// Which exchange with the engine a reply answers: a streamed chat turn
/// or a one-shot completion.
#[derive(Debug, Clone, Copy, PartialEq, Eq)]
pub enum Exchange {
    Chat,
    Completion,
}

/// The error a failed engine reply becomes: which exchange failed, its
/// status as displayed, and the first 300 characters of its body.
pub open spec fn reply_failure_text(x: Exchange, status_text: Seq<char>, body: Seq<char>) -> Seq<char> {
    (match x {
        Exchange::Chat => "chat"@,
        Exchange::Completion => "completion"@,
    }) + " failed (HTTP "@ + status_text + "): "@ + crate::speech::take_chars(body, 300)
}

/// Accept an engine reply with a 2xx status; any other is an error naming
/// the exchange and carrying the status and the start of the body.
pub fn check_reply(x: Exchange, status: u16, status_text: &str, body: &str) -> (r: Result<(), String>)
    ensures
        200 <= status < 300 ==> r is Ok,
        !(200 <= status < 300) ==> (r matches Err(e) && e@ == reply_failure_text(x, status_text@, body@)),
{
    if 200 <= status && status < 300 {
        return Ok(());
    }
    let mut e = match x {
        Exchange::Chat => owned("chat"),
        Exchange::Completion => owned("completion"),
    };
    e.append(" failed (HTTP ");
    e.append(status_text);
    e.append("): ");
    let b = crate::speech::first_chars(body, 300);
    e.append(b.as_str());
    Err(e)
}

/// The engine's base URL without trailing `/`s.
pub open spec fn base_url_of(s: Seq<char>) -> Seq<char>
    decreases s.len(),
{
    if s.len() > 0 && s.last() == '/' {
        base_url_of(s.drop_last())
    } else {
        s
    }
}

/// Normalize an engine base URL (`trim_end_matches('/')`).
pub fn normalize_base_url(s: &str) -> (r: String)
    ensures
        r@ == base_url_of(s@),
{
    let cs = crate::text::chars_of(s);
    let mut e: usize = cs.len();
    assert(cs@.subrange(0, cs@.len() as int) =~= cs@);
    while e > 0 && cs[e - 1] == '/'
        invariant
            e <= cs@.len(),
            cs@ == s@,
            base_url_of(s@) == base_url_of(cs@.subrange(0, e as int)),
        decreases e,
    {
        assert(cs@.subrange(0, e as int).drop_last() =~= cs@.subrange(0, e - 1));
        e = e - 1;
    }
    crate::text::string_of(&cs.as_slice()[0..e])
}

/// A path on the engine (`<base><path>`).
pub fn engine_url(base: &str, path: &str) -> (r: String)
    ensures
        r@ == base@ + path@,
{
    let mut u = owned(base);
    u.append(path);
    u
}


// ---------------------------------------------------------------------------
// What reassembly keeps.
// ---------------------------------------------------------------------------

/// The argument fragments of the deltas for stream index `idx`, joined in
/// stream order.
pub open spec fn args_for(ds: Seq<ToolCallDeltaV>, idx: usize) -> Seq<char>
    decreases ds.len(),
{
    if ds.len() == 0 {
        seq![]
    } else {
        args_for(ds.drop_last(), idx) + if ds.last().index == idx {
            match ds.last().arguments {
                Some(a) => a,
                None => seq![],
            }
        } else {
            seq![]
        }
    }
}

/// No two rows share a stream index.
pub open spec fn distinct_rows(rows: Seq<RowV>) -> bool {
    forall|i: int, j: int| 0 <= i < j < rows.len() ==> (#[trigger] rows[i]).0 != (#[trigger] rows[j]).0
}

proof fn lemma_row_pos(rows: Seq<RowV>, idx: usize)
    ensures
        row_pos(rows, idx) matches Some(k) ==> 0 <= k < rows.len() && rows[k].0 == idx,
        row_pos(rows, idx) is None ==> forall|k: int| 0 <= k < rows.len() ==> (#[trigger] rows[k]).0 != idx,
    decreases rows.len(),
{
    if rows.len() > 0 && rows.last().0 != idx {
        lemma_row_pos(rows.drop_last(), idx);
        assert forall|k: int| 0 <= k < rows.len() - 1 implies rows[k] == rows.drop_last()[k] by {}
    }
}

proof fn lemma_feed_rows(rows: Seq<RowV>, d: ToolCallDeltaV)
    requires
        distinct_rows(rows),
    ensures
        distinct_rows(feed_rows(rows, d)),
        forall|k: int| 0 <= k < rows.len() ==> (#[trigger] feed_rows(rows, d)[k]).0 == rows[k].0,
        feed_rows(rows, d).len() == rows.len() || (feed_rows(rows, d).len() == rows.len() + 1
            && feed_rows(rows, d)[rows.len() as int].0 == d.index),
        forall|k: int|
            0 <= k < feed_rows(rows, d).len() ==> (#[trigger] feed_rows(rows, d)[k]).3 == (if k < rows.len() {
                rows[k].3
            } else {
                seq![]
            }) + if feed_rows(rows, d)[k].0 == d.index {
                match d.arguments {
                    Some(a) => a,
                    None => seq![],
                }
            } else {
                seq![]
            },
        forall|k: int| 0 <= k < feed_rows(rows, d).len() ==> #[trigger] feed_rows(rows, d)[k].0 == d.index || k < rows.len(),
{
    lemma_row_pos(rows, d.index);
    let out = feed_rows(rows, d);
    match row_pos(rows, d.index) {
        Some(p) => {
            assert forall|k: int| 0 <= k < out.len() implies (#[trigger] out[k]).3 == rows[k].3 + if out[k].0 == d.index {
                match d.arguments {
                    Some(a) => a,
                    None => seq![],
                }
            } else {
                seq![]
            } by {
                if k != p {
                    assert(rows[k].0 != rows[p].0);
                    assert(rows[k].3 + Seq::<char>::empty() =~= rows[k].3);
                }
            }
        },
        None => {
            let base = rows.push((d.index, seq![], seq![], seq![]));
            assert forall|k: int| 0 <= k < out.len() implies (#[trigger] out[k]).3 == (if k < rows.len() {
                rows[k].3
            } else {
                seq![]
            }) + if out[k].0 == d.index {
                match d.arguments {
                    Some(a) => a,
                    None => seq![],
                }
            } else {
                seq![]
            } by {
                if k < rows.len() {
                    assert(rows[k].3 + Seq::<char>::empty() =~= rows[k].3);
                } else {
                    assert(Seq::<char>::empty() + match d.arguments {
                        Some(a) => a,
                        None => seq![],
                    } =~= match d.arguments {
                        Some(a) => a,
                        None => seq![],
                    });
                }
            }
        },
    }
}

/// Streamed tool calls reassemble faithfully: fed any sequence of deltas
/// from an empty accumulator, the rows hold each stream index once, and
/// each row's arguments are exactly that index's argument fragments joined
/// in stream order.
pub proof fn law_fragments_concatenate(ds: Seq<ToolCallDeltaV>)
    ensures
        distinct_rows(feed_all(seq![], ds)),
        forall|k: int|
            0 <= k < feed_all(seq![], ds).len() ==> (#[trigger] feed_all(seq![], ds)[k]).3 == args_for(
                ds,
                feed_all(seq![], ds)[k].0,
            ),
    decreases ds.len(),
{
    if ds.len() == 0 {
    } else {
        let front = ds.drop_last();
        let d = ds.last();
        law_fragments_concatenate(front);
        assert(front.push(d) =~= ds);
        lemma_feed_all_push(seq![], front, d);
        let rows = feed_all(seq![], front);
        lemma_feed_rows(rows, d);
        let out = feed_rows(rows, d);
        assert forall|k: int| 0 <= k < out.len() implies (#[trigger] out[k]).3 == args_for(ds, out[k].0) by {
            assert(ds.drop_last() =~= front);
            if k < rows.len() {
                assert(out[k].0 == rows[k].0);
            } else {
                assert(out[k].0 == d.index);
                lemma_row_pos(rows, d.index);
                assert(row_pos(rows, d.index) is None);
                lemma_args_for_absent(front, rows, d.index);
            }
        }
    }
}

proof fn lemma_args_for_absent(front: Seq<ToolCallDeltaV>, rows: Seq<RowV>, idx: usize)
    requires
        rows == feed_all(seq![], front),
        forall|k: int| 0 <= k < rows.len() ==> (#[trigger] rows[k]).0 != idx,
    ensures
        args_for(front, idx) == Seq::<char>::empty(),
        last_id(front, idx) == Seq::<char>::empty(),
        last_name(front, idx) == Seq::<char>::empty(),
    decreases front.len(),
{
    if front.len() > 0 {
        let f2 = front.drop_last();
        let d = front.last();
        assert(f2.push(d) =~= front);
        lemma_feed_all_push(seq![], f2, d);
        let r2 = feed_all(seq![], f2);
        law_fragments_concatenate(f2);
        lemma_feed_rows(r2, d);
        assert forall|k: int| 0 <= k < r2.len() implies (#[trigger] r2[k]).0 != idx by {
            assert(feed_rows(r2, d)[k].0 == r2[k].0);
        }
        lemma_args_for_absent(f2, r2, idx);
        if d.index == idx {
            lemma_row_pos(r2, d.index);
            let out = feed_rows(r2, d);
            match row_pos(r2, d.index) {
                Some(p) => {
                    assert(out[p].0 == idx);
                },
                None => {
                    assert(out[r2.len() as int].0 == idx);
                },
            }
        }
        assert(args_for(front, idx) =~= Seq::<char>::empty());
    }
}

/// The stream indices of `ds` in the order each was first seen.
pub open spec fn first_seen(ds: Seq<ToolCallDeltaV>) -> Seq<usize>
    decreases ds.len(),
{
    if ds.len() == 0 {
        seq![]
    } else {
        let f = first_seen(ds.drop_last());
        if f.contains(ds.last().index) {
            f
        } else {
            f.push(ds.last().index)
        }
    }
}

/// Parallel calls come back in a stable order: fed any sequence of deltas
/// from an empty accumulator, the rows follow the stream indices in the
/// order each index was first seen.
pub proof fn law_calls_keep_first_seen_order(ds: Seq<ToolCallDeltaV>)
    ensures
        feed_all(seq![], ds).len() == first_seen(ds).len(),
        forall|k: int| 0 <= k < first_seen(ds).len() ==> (#[trigger] feed_all(seq![], ds)[k]).0 == first_seen(ds)[k],
    decreases ds.len(),
{
    if ds.len() > 0 {
        let front = ds.drop_last();
        let d = ds.last();
        law_calls_keep_first_seen_order(front);
        law_fragments_concatenate(front);
        assert(front.push(d) =~= ds);
        lemma_feed_all_push(seq![], front, d);
        let rows = feed_all(seq![], front);
        let fs = first_seen(front);
        lemma_feed_rows(rows, d);
        lemma_row_pos(rows, d.index);
        let out = feed_rows(rows, d);
        if fs.contains(d.index) {
            let k = choose|k: int| 0 <= k < fs.len() && fs[k] == d.index;
            assert(rows[k].0 == d.index);
            assert(row_pos(rows, d.index) is Some);
            assert(out.len() == rows.len());
            assert(first_seen(ds) == fs);
        } else {
            assert forall|k: int| 0 <= k < rows.len() implies (#[trigger] rows[k]).0 != d.index by {
                assert(fs[k] != d.index);
            }
            assert(row_pos(rows, d.index) is None);
            assert(out.len() == rows.len() + 1);
            assert(first_seen(ds) == fs.push(d.index));
        }
    }
}

/// The last id the deltas for stream index `idx` carried (none: empty).
pub open spec fn last_id(ds: Seq<ToolCallDeltaV>, idx: usize) -> Seq<char>
    decreases ds.len(),
{
    if ds.len() == 0 {
        seq![]
    } else if ds.last().index == idx && ds.last().id is Some {
        ds.last().id->0
    } else {
        last_id(ds.drop_last(), idx)
    }
}

/// The last name the deltas for stream index `idx` carried (none: empty).
pub open spec fn last_name(ds: Seq<ToolCallDeltaV>, idx: usize) -> Seq<char>
    decreases ds.len(),
{
    if ds.len() == 0 {
        seq![]
    } else if ds.last().index == idx && ds.last().name is Some {
        ds.last().name->0
    } else {
        last_name(ds.drop_last(), idx)
    }
}

proof fn lemma_feed_rows_labels(rows: Seq<RowV>, d: ToolCallDeltaV)
    requires
        distinct_rows(rows),
    ensures
        forall|k: int|
            0 <= k < feed_rows(rows, d).len() && (#[trigger] feed_rows(rows, d)[k]).0 != d.index ==> k < rows.len()
                && feed_rows(rows, d)[k].1 == rows[k].1 && feed_rows(rows, d)[k].2 == rows[k].2,
        forall|k: int|
            0 <= k < feed_rows(rows, d).len() && (#[trigger] feed_rows(rows, d)[k]).0 == d.index ==> {
                let old_id = if k < rows.len() { rows[k].1 } else { seq![] };
                let old_name = if k < rows.len() { rows[k].2 } else { seq![] };
                &&& feed_rows(rows, d)[k].1 == match d.id {
                    Some(x) => x,
                    None => old_id,
                }
                &&& feed_rows(rows, d)[k].2 == match d.name {
                    Some(x) => x,
                    None => old_name,
                }
            },
{
    lemma_row_pos(rows, d.index);
    lemma_feed_rows(rows, d);
    let out = feed_rows(rows, d);
    match row_pos(rows, d.index) {
        Some(p) => {
            assert forall|k: int| 0 <= k < out.len() && (#[trigger] out[k]).0 == d.index implies k == p by {
                if k != p {
                    assert(rows[k].0 != rows[p].0);
                }
            }
        },
        None => {},
    }
}

/// Every row holds the last id and the last name its index's deltas
/// carried: fed any sequence of deltas from an empty accumulator, a later
/// id or name replaces an earlier one, and a delta without one keeps it.
pub proof fn law_rows_keep_last_id_and_name(ds: Seq<ToolCallDeltaV>)
    ensures
        forall|k: int|
            0 <= k < feed_all(seq![], ds).len() ==> (#[trigger] feed_all(seq![], ds)[k]).1 == last_id(
                ds,
                feed_all(seq![], ds)[k].0,
            ) && feed_all(seq![], ds)[k].2 == last_name(ds, feed_all(seq![], ds)[k].0),
    decreases ds.len(),
{
    if ds.len() > 0 {
        let front = ds.drop_last();
        let d = ds.last();
        law_rows_keep_last_id_and_name(front);
        law_fragments_concatenate(front);
        assert(front.push(d) =~= ds);
        lemma_feed_all_push(seq![], front, d);
        let rows = feed_all(seq![], front);
        lemma_feed_rows(rows, d);
        lemma_feed_rows_labels(rows, d);
        let out = feed_rows(rows, d);
        assert forall|k: int| 0 <= k < out.len() implies (#[trigger] out[k]).1 == last_id(ds, out[k].0)
            && out[k].2 == last_name(ds, out[k].0) by {
            assert(ds.drop_last() =~= front);
            if out[k].0 == d.index {
                if k >= rows.len() {
                    lemma_row_pos(rows, d.index);
                    assert(row_pos(rows, d.index) is None);
                    lemma_args_for_absent(front, rows, d.index);
                } else {
                    assert(out[k].0 == rows[k].0);
                }
            } else {
                assert(out[k].0 == rows[k].0);
            }
        }
    }
}

/// The calls the indices `idxs` make, in that order: an index whose last
/// name is empty makes none; otherwise its last id (or `call_<index>`), its
/// last name, and its argument fragments joined.
pub open spec fn calls_for(idxs: Seq<usize>, ds: Seq<ToolCallDeltaV>) -> Seq<(Seq<char>, Seq<char>, Seq<char>)>
    decreases idxs.len(),
{
    if idxs.len() == 0 {
        seq![]
    } else {
        let i = idxs[0];
        let rest = calls_for(idxs.drop_first(), ds);
        if last_name(ds, i).len() == 0 {
            rest
        } else {
            seq![(if last_id(ds, i).len() == 0 { "call_"@ + dec_digits(i as nat) } else { last_id(ds, i) }, last_name(ds, i), args_for(ds, i))]
                + rest
        }
    }
}

proof fn lemma_assembled_rows(rows: Seq<RowV>, idxs: Seq<usize>, ds: Seq<ToolCallDeltaV>)
    requires
        rows.len() == idxs.len(),
        forall|k: int|
            0 <= k < rows.len() ==> #[trigger] rows[k] == (idxs[k], last_id(ds, idxs[k]), last_name(ds, idxs[k]), args_for(ds, idxs[k])),
    ensures
        assembled(rows) == calls_for(idxs, ds),
    decreases rows.len(),
{
    if rows.len() > 0 {
        assert forall|k: int| 0 <= k < rows.drop_first().len() implies #[trigger] rows.drop_first()[k] == (
            idxs.drop_first()[k],
            last_id(ds, idxs.drop_first()[k]),
            last_name(ds, idxs.drop_first()[k]),
            args_for(ds, idxs.drop_first()[k]),
        ) by {
            assert(rows.drop_first()[k] == rows[k + 1]);
        }
        lemma_assembled_rows(rows.drop_first(), idxs.drop_first(), ds);
        assert(rows[0] == (idxs[0], last_id(ds, idxs[0]), last_name(ds, idxs[0]), args_for(ds, idxs[0])));
    }
}

/// What a stream of tool-call deltas finishes into: fed any deltas from an
/// empty accumulator, the calls are one per stream index whose last name is
/// non-empty, in the order the indices were first seen; each carries that
/// name, its arguments are the index's fragments joined in stream order, and
/// its id is the last id the index's deltas carried, or `call_<index>` when
/// none came or the last was empty.
pub proof fn law_streamed_calls_assemble(ds: Seq<ToolCallDeltaV>)
    ensures
        assembled(feed_all(seq![], ds)) == calls_for(first_seen(ds), ds),
{
    law_fragments_concatenate(ds);
    law_calls_keep_first_seen_order(ds);
    law_rows_keep_last_id_and_name(ds);
    let rows = feed_all(seq![], ds);
    let fs = first_seen(ds);
    assert forall|k: int| 0 <= k < rows.len() implies #[trigger] rows[k] == (fs[k], last_id(ds, fs[k]), last_name(ds, fs[k]), args_for(ds, fs[k])) by {
        assert(rows[k].0 == fs[k]);
    }
    lemma_assembled_rows(rows, fs, ds);
}

/// A tool-call fragment is filed under the stream's own `index`: an entry
/// of a frame's `tool_calls` that carries a non-negative integer `index`
/// yields a delta with that index, wherever the entry sits in the array;
/// only an entry without one falls back to its position.
pub proof fn law_deltas_keep_the_stream_index(text: Seq<char>, v: JsonV, c: JsonV, tcs: Seq<JsonV>, k: int)
    requires
        parsed_json(text) == Some(v),
        first_choice(v) == Some(c),
        c.get("delta"@) matches Some(d) && d.get("tool_calls"@) == Some(JsonV::Array(tcs)),
        0 <= k < tcs.len(),
    ensures
        frame_of(text).tool_calls.len() == tcs.len(),
        tcs[k].get("index"@) matches Some(JsonV::PosInt(n)) ==> frame_of(text).tool_calls[k].index == n as usize,
        !(tcs[k].get("index"@) matches Some(JsonV::PosInt(_))) ==> frame_of(text).tool_calls[k].index == k as usize,
{
}

} // verus!
