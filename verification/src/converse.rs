//! The converse spine's decisions: turn ids, the context a native turn is
//! assembled from, when tools are still offered, how a call to a disabled
//! tool is refused, and how a finished answer is voiced. Streaming the
//! model, running tools concurrently and synthesizing speech happen at the
//! edge, which hands these functions what came back.

use vstd::prelude::*;
use vstd::string::StringExecFns;

use crate::event::{events_view, MyoEvent, MyoEventV, TurnId};
use crate::json::{parsed_json, Json, JsonV};
use crate::llm::{bare_message, calls_message, tool_message, ChatMessage, ToolCall, TurnOutcome};
use crate::text::{chars_of, owned, string_of, trim, trim_bounds};
use crate::speech::TtsAudio;
use crate::tools::{find, find_named, headline_key, ToolKind, TOOL_PREAMBLE};

verus! {

/// How many tool rounds one turn may take before a plain answer is forced.
pub const MAX_TOOL_ROUNDS: u64 = 16;

/// Hands out a fresh turn id per utterance; ids start at 1 so 0 can mean
/// "no turn".
#[derive(Debug)]
pub struct TurnAllocator {
    next: u64,
}

impl TurnAllocator {
    /// The id the next allocation returns.
    pub closed spec fn next_id(&self) -> u64 {
        self.next
    }

    pub fn new() -> (a: Self)
        ensures
            a.next_id() == 1,
    {
        TurnAllocator { next: 1 }
    }

    /// A fresh turn id: the next one, advancing the counter (wrapping, as an
    /// atomic fetch-and-add does, after `u64::MAX`).
    pub fn allocate(&mut self) -> (id: TurnId)
        ensures
            id == old(self).next_id(),
            final(self).next_id() == if old(self).next_id() == u64::MAX { 0 } else { (old(self).next_id() + 1) as u64 },
    {
        let id = self.next;
        self.next = self.next.wrapping_add(1);
        id
    }
}

/// The system note that folds recalled memories into a turn's context.
pub open spec fn memory_note_text(hits: Seq<Seq<char>>) -> Seq<char>
    decreases hits.len(),
{
    if hits.len() == 0 {
        "Here are some things you remember that may be relevant. Draw on them only when they genuinely help, and don't announce that you're recalling them:\n"@
    } else {
        memory_note_text(hits.drop_last()) + "- "@ + hits.last() + "\n"@
    }
}

pub open spec fn strings_view(v: Seq<String>) -> Seq<Seq<char>> {
    Seq::new(v.len(), |i: int| v[i]@)
}

/// The system note for a turn's recalled memories: a header, then one
/// `- <memory>` line each.
pub fn memory_note(hits: &[String]) -> (r: String)
    ensures
        r@ == memory_note_text(strings_view(hits@)),
{
    let mut s = owned(
        "Here are some things you remember that may be relevant. Draw on them only when they genuinely help, and don't announce that you're recalling them:\n",
    );
    let ghost hv = strings_view(hits@);
    let mut i: usize = 0;
    assert(hv.subrange(0, 0) =~= Seq::<Seq<char>>::empty());
    while i < hits.len()
        invariant
            i <= hits@.len(),
            hv == strings_view(hits@),
            s@ == memory_note_text(hv.subrange(0, i as int)),
        decreases hits@.len() - i,
    {
        assert(hv.subrange(0, i + 1).drop_last() =~= hv.subrange(0, i as int));
        s.append("- ");
        s.append(hits[i].as_str());
        s.append("\n");
        i = i + 1;
    }
    assert(hv.subrange(0, hits@.len() as int) =~= hv);
    s
}

/// The `memories_used` progress event: the recalled texts as
/// `[{text: …}, …]`.
pub open spec fn memories_event(turn: u64, hits: Seq<Seq<char>>) -> MyoEventV {
    MyoEventV::Progress {
        turn: turn,
        kind: "memories_used"@,
        data: JsonV::Array(Seq::new(hits.len(), |i: int| JsonV::Object(seq![("text"@, JsonV::Str(hits[i]))]))),
    }
}

/// Surface recalled memories to the UI.
pub fn memories_used(turn: TurnId, hits: &[String]) -> (r: MyoEvent)
    ensures
        r@ == memories_event(turn, strings_view(hits@)),
{
    let mut items: Vec<Json> = Vec::new();
    let mut i: usize = 0;
    while i < hits.len()
        invariant
            i <= hits@.len(),
            items@.len() == i,
            forall|k: int| 0 <= k < i ==> #[trigger] items@[k]@ == JsonV::Object(seq![("text"@, JsonV::Str(hits@[k]@))]),
        decreases hits@.len() - i,
    {
        let m = vec![(owned("text"), Json::text(hits[i].as_str()))];
        assert(crate::json::pairs_view(m@) =~= seq![("text"@, JsonV::Str(hits@[i as int]@))]);
        items.push(crate::event::object(m));
        i = i + 1;
    }
    let data = Json::Array(items);
    assert forall|k: int| 0 <= k < hits@.len() implies data@->Array_0[k] == JsonV::Object(seq![("text"@, JsonV::Str(hits@[k]@))]) by {
        assert(items@[k]@ == JsonV::Object(seq![("text"@, JsonV::Str(hits@[k]@))]));
    }
    assert(data@->Array_0 =~= Seq::new(hits@.len(), |k: int| JsonV::Object(seq![("text"@, JsonV::Str(strings_view(hits@)[k]))])));
    MyoEvent::Progress { turn, kind: owned("memories_used"), data }
}

/// `(role, content)` of each message.
pub open spec fn convo_view(v: Seq<ChatMessage>) -> Seq<(Seq<char>, Seq<char>)> {
    Seq::new(v.len(), |i: int| (v[i].role@, v[i].content@))
}

/// The context of a native turn: the persona, then the recalled memories'
/// note (when any), the working-memory window, and this user turn; when
/// tools are offered, the tool preamble follows the persona.
pub open spec fn context_of(persona: Seq<char>, hits: Seq<Seq<char>>, window: Seq<(Seq<char>, Seq<char>)>, user: Seq<char>, tools: bool) -> Seq<(Seq<char>, Seq<char>)> {
    seq![("system"@, persona)] + (if tools { seq![("system"@, TOOL_PREAMBLE@)] } else { seq![] }) + (if hits.len() > 0 {
        seq![("system"@, memory_note_text(hits))]
    } else {
        seq![]
    }) + window + seq![("user"@, user)]
}

/// Assemble the context of a native turn from both memory layers.
pub fn assemble_context(persona: &str, hits: &[String], window: Vec<ChatMessage>, user_text: &str, tools_offered: bool) -> (r: Vec<ChatMessage>)
    requires
        forall|i: int| 0 <= i < window@.len() ==> (#[trigger] window@[i]).tool_calls@.len() == 0 && window@[i].tool_call_id is None,
    ensures
        convo_view(r@) == context_of(persona@, strings_view(hits@), convo_view(window@), user_text@, tools_offered),
        forall|i: int| 0 <= i < r@.len() ==> (#[trigger] r@[i]).tool_calls@.len() == 0 && r@[i].tool_call_id is None,
{
    let mut convo: Vec<ChatMessage> = vec![ChatMessage::system(persona)];
    let ghost mut cv = seq![("system"@, persona@)];
    assert(convo_view(convo@) =~= cv);
    if tools_offered {
        convo.push(ChatMessage::system(TOOL_PREAMBLE));
        proof {
            cv = cv + seq![("system"@, TOOL_PREAMBLE@)];
        }
        assert(convo_view(convo@) =~= cv);
    } else {
        proof {
            cv = cv + Seq::<(Seq<char>, Seq<char>)>::empty();
        }
        assert(convo_view(convo@) =~= cv);
    }
    if hits.len() > 0 {
        let note = memory_note(hits);
        convo.push(ChatMessage::system(note.as_str()));
        proof {
            cv = cv + seq![("system"@, memory_note_text(strings_view(hits@)))];
        }
        assert(convo_view(convo@) =~= cv);
    } else {
        proof {
            cv = cv + Seq::<(Seq<char>, Seq<char>)>::empty();
        }
        assert(convo_view(convo@) =~= cv);
    }
    let ghost wv = convo_view(window@);
    let ghost base = cv;
    let ghost n0 = convo@.len();
    let mut w = window;
    let mut k: usize = 0;
    let total = w.len();
    while w.len() > 0
        invariant
            k + w@.len() == total,
            wv.len() == total,
            forall|j: int| 0 <= j < w@.len() ==> (#[trigger] w@[j]).role@ == wv[k + j].0 && w@[j].content@ == wv[k + j].1
                && w@[j].tool_calls@.len() == 0 && w@[j].tool_call_id is None,
            convo_view(convo@) == base + wv.subrange(0, k as int),
            forall|i: int| 0 <= i < convo@.len() ==> (#[trigger] convo@[i]).tool_calls@.len() == 0 && convo@[i].tool_call_id is None,
        decreases w@.len(),
    {
        let m = w.remove(0);
        let ghost before = convo_view(convo@);
        convo.push(m);
        assert(convo_view(convo@) =~= before.push(wv[k as int]));
        assert(wv.subrange(0, k + 1) =~= wv.subrange(0, k as int).push(wv[k as int]));
        k = k + 1;
    }
    assert(wv.subrange(0, k as int) =~= wv);
    let ghost before = convo_view(convo@);
    convo.push(ChatMessage::user(user_text));
    assert(convo_view(convo@) =~= before.push(("user"@, user_text@)));
    assert(convo_view(convo@) =~= context_of(persona@, strings_view(hits@), wv, user_text@, tools_offered));
    convo
}

/// Are tools still offered in round `round`? On the last allowed round the
/// model must answer in plain speech, so every turn ends with an answer.
pub fn offer_tools(round: u64) -> (r: bool)
    ensures
        r == (round < MAX_TOOL_ROUNDS),
{
    round < MAX_TOOL_ROUNDS
}

/// What the model reads back when it called a tool that is not in the kit.
pub open spec fn refusal_text(name: Seq<char>) -> Seq<char> {
    "The tool '"@ + name + "' is not available — its capability is turned off."@
}

/// The activity pills and the tool result for a call to a disabled or
/// unknown tool: it is refused, never run — a start with no headline, and an
/// output carrying the refusal and no exit code.
pub open spec fn refusal_events(turn: u64, round: u64, name: Seq<char>) -> Seq<MyoEventV> {
    seq![
        MyoEventV::ActivityStart { turn: turn, tool: name, command: None, round: Some(round) },
        MyoEventV::ActivityOutput {
            turn: turn,
            tool: name,
            output: Some(refusal_text(name)),
            exit_code: None,
            image_url: None,
            round: Some(round),
        },
    ]
}

/// Refuse a call to `name`: the events to emit and the result text.
pub fn refuse_call(turn: TurnId, round: u64, name: &str) -> (r: (Vec<MyoEvent>, String))
    ensures
        events_view(r.0@) == refusal_events(turn, round, name@),
        r.1@ == refusal_text(name@),
{
    let mut msg = owned("The tool '");
    msg.append(name);
    msg.append("' is not available — its capability is turned off.");
    let evs = vec![
        MyoEvent::ActivityStart { turn, tool: owned(name), command: None, round: Some(round) },
        MyoEvent::ActivityOutput {
            turn,
            tool: owned(name),
            output: Some(msg.clone()),
            exit_code: None,
            image_url: None,
            round: Some(round),
        },
    ];
    assert(events_view(evs@) =~= refusal_events(turn, round, name@));
    (evs, msg)
}

/// A tool that failed still answers the model: `tool error: <error>`.
pub fn tool_error_result(error: &str) -> (r: crate::tools::ToolResult)
    ensures
        r.text@ == "tool error: "@ + error@,
        r.exit_code is None,
{
    let mut t = owned("tool error: ");
    t.append(error);
    crate::tools::ToolResult { text: t, exit_code: None }
}

/// The output pill for a finished tool call.
pub fn tool_output_event(turn: TurnId, round: u64, name: &str, result: &crate::tools::ToolResult) -> (r: MyoEvent)
    ensures
        r@ == (MyoEventV::ActivityOutput {
            turn: turn,
            tool: name@,
            output: Some(result.text@),
            exit_code: result.exit_code,
            image_url: None,
            round: Some(round),
        }),
{
    MyoEvent::ActivityOutput {
        turn,
        tool: owned(name),
        output: Some(result.text.clone()),
        exit_code: result.exit_code,
        image_url: None,
        round: Some(round),
    }
}

/// The `(call id, result)` pairs in call order; a call whose task never
/// reported gets empty strings.
pub fn collect_results(results: Vec<Option<(String, String)>>) -> (r: Vec<(String, String)>)
    ensures
        r@.len() == results@.len(),
        forall|i: int|
            0 <= i < r@.len() ==> match results@[i] {
                Some(p) => (#[trigger] r@[i]).0@ == p.0@ && r@[i].1@ == p.1@,
                None => r@[i].0@.len() == 0 && r@[i].1@.len() == 0,
            },
{
    let mut out: Vec<(String, String)> = Vec::new();
    let mut rs = results;
    let ghost all = rs@;
    let total = rs.len();
    let mut k: usize = 0;
    while rs.len() > 0
        invariant
            k + rs@.len() == total,
            all.len() == total,
            forall|j: int| 0 <= j < rs@.len() ==> #[trigger] rs@[j] == all[k + j],
            out@.len() == k,
            forall|i: int|
                0 <= i < k ==> match all[i] {
                    Some(p) => (#[trigger] out@[i]).0@ == p.0@ && out@[i].1@ == p.1@,
                    None => out@[i].0@.len() == 0 && out@[i].1@.len() == 0,
                },
        decreases rs@.len(),
    {
        let x = rs.remove(0);
        match x {
            Some(p) => out.push(p),
            None => out.push((String::new(), String::new())),
        }
        k = k + 1;
    }
    out
}

/// The one audio event a finished answer gets: the engine's audio when it
/// synthesized some; otherwise the text (empty for a blank answer), for the
/// browser's own speech engine.
pub open spec fn voice_of(turn: u64, spoken: Seq<char>, audio: Option<(Seq<char>, Seq<char>)>) -> MyoEventV {
    match audio {
        Some((b64, mime)) => MyoEventV::AudioReady { turn: turn, b64: b64, mime: mime },
        None => MyoEventV::AudioSpeak { turn: turn, text: spoken },
    }
}

/// The synthesized audio by value.
pub open spec fn audio_view(audio: Option<TtsAudio>) -> Option<(Seq<char>, Seq<char>)> {
    match audio {
        Some(a) => Some((a.b64@, a.mime@)),
        None => None,
    }
}

/// Voice a finished answer (already trimmed): exactly one audio event.
pub fn voice_event(turn: TurnId, spoken: &str, audio: Option<TtsAudio>) -> (r: MyoEvent)
    ensures
        r@ == voice_of(turn, spoken@, audio_view(audio)),
{
    match audio {
        Some(a) => MyoEvent::AudioReady { turn, b64: a.b64, mime: a.mime },
        None => MyoEvent::AudioSpeak { turn, text: owned(spoken) },
    }
}

/// The spoken answer: the reply without surrounding white space.
pub fn spoken_text(reply: &str) -> (r: String)
    ensures
        r@ == trim(reply@),
{
    let cs = chars_of(reply);
    let (b, e) = trim_bounds(&cs);
    string_of(&cs.as_slice()[b..e])
}

/// The spoken text a brain turn accumulates: its answer deltas, in order.
pub open spec fn spoken_of(evs: Seq<MyoEventV>) -> Seq<char>
    decreases evs.len(),
{
    if evs.len() == 0 {
        seq![]
    } else {
        spoken_of(evs.drop_last()) + match evs.last() {
            MyoEventV::AssistantDelta { text, .. } => text,
            _ => seq![],
        }
    }
}

/// Add an event's answer text to what has been spoken so far.
pub fn capture_spoken(spoken: &mut String, ev: &MyoEvent)
    ensures
        final(spoken)@ == old(spoken)@ + match ev@ {
            MyoEventV::AssistantDelta { text, .. } => text,
            _ => seq![],
        },
{
    match ev {
        MyoEvent::AssistantDelta { text, .. } => spoken.append(text.as_str()),
        _ => {
            assert(old(spoken)@ + Seq::<char>::empty() =~= old(spoken)@);
        },
    }
}

// ---------------------------------------------------------------------------
// The native turn loop: stream, run the requested tools, feed the results
// back, until the model answers. The edge performs each step.
// ---------------------------------------------------------------------------

/// The JSON a call's arguments are read as: the parsed text, or `{}` when
/// the model sent something that is not JSON.
pub open spec fn call_args(text: Seq<char>) -> JsonV {
    match parsed_json(text) {
        Some(v) => v,
        None => JsonV::Object(seq![]),
    }
}

/// How one requested call is to be handled.
#[derive(Debug)]
pub enum CallPlan {
    /// The tool is not in the kit: emit `events`; the model reads `text`.
    Refused { events: Vec<MyoEvent>, text: String },
    /// Emit `start`, then run `tool` with `args`.
    Run { tool: ToolKind, args: Json, start: MyoEvent },
}

/// Plan one call of round `round` against the kit: a tool outside the kit
/// (disabled or unknown) is refused and never run; a kit tool gets its
/// arguments read and an activity pill headed by them.
pub fn plan_call(kit: &[ToolKind], call: &ToolCall, turn: TurnId, round: u64) -> (r: CallPlan)
    ensures
        match find_named(kit@, call.name@) {
            None => r matches CallPlan::Refused { events, text } && events_view(events@)
                == refusal_events(turn, round, call.name@) && text@ == refusal_text(call.name@),
            Some(t) => r matches CallPlan::Run { tool, args, start } && tool == t && args@ == call_args(
                call.arguments@,
            ) && start@ == (MyoEventV::ActivityStart {
                turn: turn,
                tool: call.name@,
                command: call_args(call.arguments@).str_member(headline_key(t)),
                round: Some(round),
            }),
        },
{
    match find(kit, call.name.as_str()) {
        None => {
            let (events, text) = refuse_call(turn, round, call.name.as_str());
            CallPlan::Refused { events, text }
        },
        Some(t) => {
            let args = match Json::parse(call.arguments.as_str()) {
                Some(v) => v,
                None => {
                    let e = Json::Object(Vec::new());
                    assert(e@->Object_0 =~= Seq::<(Seq<char>, JsonV)>::empty());
                    e
                },
            };
            let command = t.headline(&args);
            let start = MyoEvent::ActivityStart { turn, tool: owned(call.name.as_str()), command, round: Some(round) };
            CallPlan::Run { tool: t, args, start }
        },
    }
}

/// What the edge does next in a native turn.
#[derive(Debug, PartialEq)]
pub enum TurnStep {
    /// Run these calls (tool round `round`), then hand back their results.
    RunCalls { round: u64, calls: Vec<ToolCall> },
    /// The turn is over: emit `done` (the end of the answer) at once; then
    /// `spoken` (trimmed) is the answer to voice, with the one audio event
    /// [`TurnLoop::voice`] gives, and to keep.
    Done { spoken: String, done: MyoEvent },
}

/// One native turn in progress: its id, how many tool rounds it has taken,
/// and the conversation sent to the model.
pub struct TurnLoop {
    turn: TurnId,
    round: u64,
    convo: Vec<ChatMessage>,
}

impl TurnLoop {
    pub closed spec fn turn_id(&self) -> TurnId {
        self.turn
    }

    pub closed spec fn rounds(&self) -> u64 {
        self.round
    }

    pub closed spec fn convo(&self) -> Seq<ChatMessage> {
        self.convo@
    }

    /// Start a turn from its assembled context.
    pub fn new(turn: TurnId, context: Vec<ChatMessage>) -> (t: Self)
        ensures
            t.turn_id() == turn,
            t.rounds() == 0,
            t.convo() == context@,
    {
        TurnLoop { turn, round: 0, convo: context }
    }

    pub fn turn(&self) -> (r: TurnId)
        ensures
            r == self.turn_id(),
    {
        self.turn
    }

    /// Tool rounds taken so far.
    pub fn round(&self) -> (r: u64)
        ensures
            r == self.rounds(),
    {
        self.round
    }

    /// The conversation to send to the model next.
    pub fn messages(&self) -> (r: &[ChatMessage])
        ensures
            r@ == self.convo(),
    {
        self.convo.as_slice()
    }

    /// Whether the next request offers the tools: only while rounds remain,
    /// so a turn that keeps calling tools is finally asked for a plain answer.
    pub fn tools_offered(&self) -> (r: bool)
        ensures
            r == (self.rounds() < MAX_TOOL_ROUNDS),
    {
        offer_tools(self.round)
    }

    /// Take in how a streamed request ended. An answer ends the turn with its
    /// trimmed text; tool calls start the next round, recording the
    /// assistant's request in the conversation.
    pub fn on_outcome(&mut self, outcome: TurnOutcome) -> (r: TurnStep)
        ensures
            final(self).turn_id() == old(self).turn_id(),
            match outcome {
                TurnOutcome::Message(text) => r matches TurnStep::Done { spoken, done } && spoken@ == trim(text@)
                    && done@ == (MyoEventV::AssistantDone { turn: old(self).turn_id() })
                    && final(self).rounds() == old(self).rounds() && final(self).convo() == old(self).convo(),
                TurnOutcome::ToolCalls(calls) => r matches TurnStep::RunCalls { round, calls: c } && c@ == calls@
                    && round == final(self).rounds() && final(self).rounds() == (if old(self).rounds() < u64::MAX {
                    old(self).rounds() + 1
                } else {
                    u64::MAX as int
                }) && final(self).convo().len() == old(self).convo().len() + 1 && final(self).convo().subrange(
                    0,
                    old(self).convo().len() as int,
                ) == old(self).convo() && calls_message(final(self).convo().last(), calls@),
            },
    {
        match outcome {
            TurnOutcome::Message(text) => TurnStep::Done {
                spoken: spoken_text(text.as_str()),
                done: MyoEvent::AssistantDone { turn: self.turn },
            },
            TurnOutcome::ToolCalls(calls) => {
                self.round = self.round.saturating_add(1);
                let m = ChatMessage::assistant_calls(calls.as_slice());
                let ghost before = self.convo@;
                self.convo.push(m);
                assert(self.convo@.subrange(0, before.len() as int) =~= before);
                TurnStep::RunCalls { round: self.round, calls }
            },
        }
    }

    /// Feed a round's results back, one `tool` turn per call, in call order.
    pub fn on_results(&mut self, results: Vec<(String, String)>)
        ensures
            final(self).turn_id() == old(self).turn_id(),
            final(self).rounds() == old(self).rounds(),
            final(self).convo().len() == old(self).convo().len() + results@.len(),
            final(self).convo().subrange(0, old(self).convo().len() as int) == old(self).convo(),
            forall|i: int|
                0 <= i < results@.len() ==> tool_message(
                    #[trigger] final(self).convo()[old(self).convo().len() + i],
                    results@[i].0@,
                    results@[i].1@,
                ),
    {
        let ghost start = self.convo@;
        let mut i: usize = 0;
        while i < results.len()
            invariant
                i <= results@.len(),
                self.turn == old(self).turn,
                self.round == old(self).round,
                start == old(self).convo@,
                self.convo@.len() == start.len() + i,
                self.convo@.subrange(0, start.len() as int) == start,
                forall|k: int| 0 <= k < i ==> tool_message(#[trigger] self.convo@[start.len() + k], results@[k].0@, results@[k].1@),
            decreases results@.len() - i,
        {
            let m = ChatMessage::tool(results[i].0.as_str(), results[i].1.as_str());
            let ghost before = self.convo@;
            self.convo.push(m);
            assert(self.convo@.subrange(0, start.len() as int) =~= before.subrange(0, start.len() as int));
            assert(self.convo@[before.len() as int] == m);
            i = i + 1;
        }
    }

    /// The one audio event that voices the turn's answer, after its `done`:
    /// the engine's audio when synthesis gave some, else the answer's text.
    pub fn voice(&self, spoken: &str, audio: Option<TtsAudio>) -> (r: MyoEvent)
        ensures
            r@ == voice_of(self.turn_id(), spoken@, audio_view(audio)),
    {
        voice_event(self.turn, spoken, audio)
    }
}

/// The events a finished turn closes with: the end of the answer, then its
/// one audio event.
pub open spec fn closing_events(turn: u64, spoken: Seq<char>, audio: Option<(Seq<char>, Seq<char>)>) -> Seq<MyoEventV> {
    seq![MyoEventV::AssistantDone { turn: turn }, voice_of(turn, spoken, audio)]
}

/// How many of `evs` end an answer.
pub open spec fn dones(evs: Seq<MyoEventV>) -> nat
    decreases evs.len(),
{
    if evs.len() == 0 {
        0
    } else {
        dones(evs.drop_last()) + if evs.last() is AssistantDone { 1nat } else { 0nat }
    }
}

/// How many of `evs` voice an answer.
pub open spec fn audio_events(evs: Seq<MyoEventV>) -> nat
    decreases evs.len(),
{
    if evs.len() == 0 {
        0
    } else {
        audio_events(evs.drop_last()) + if evs.last() is AudioReady || evs.last() is AudioSpeak { 1nat } else { 0nat }
    }
}

/// A finished turn closes exactly once and is voiced exactly once, whatever
/// the answer (blank included) and whether or not synthesis gave audio: the
/// `done` of the final step and the turn's voice event are one
/// `AssistantDone` for the turn followed by one audio event for it.
pub proof fn law_a_finished_turn_closes_once(turn: u64, spoken: Seq<char>, audio: Option<(Seq<char>, Seq<char>)>)
    ensures
        ({
            let evs = closing_events(turn, spoken, audio);
            &&& dones(evs) == 1
            &&& audio_events(evs) == 1
            &&& evs[0] == (MyoEventV::AssistantDone { turn: turn })
            &&& (evs[1] matches MyoEventV::AudioReady { turn: t, .. } && t == turn)
                || (evs[1] matches MyoEventV::AudioSpeak { turn: t, text } && t == turn && text == spoken)
        }),
{
    let evs = closing_events(turn, spoken, audio);
    let first = evs.drop_last();
    assert(first.drop_last() =~= Seq::<MyoEventV>::empty());
    assert(first.last() == evs[0]);
    assert(dones(first.drop_last()) == 0);
    assert(audio_events(first.drop_last()) == 0);
    assert(dones(first) == 1);
    assert(audio_events(first) == 0);
}

} // verus!
