//! The brain client's logic: its configuration, the form a chat turn is
//! sent as, and what its replies come to — including folding each streamed
//! frame into intent-stream events. The HTTP exchanges happen at the edge.

use vstd::prelude::*;

use crate::capabilities::Capabilities;
use crate::event::{events_view, MyoEvent, MyoEventV, TurnId};
use crate::sse::{block_event, frames, items_of, items_view, SseDecoder, SseEvent, SseItem};
use crate::json::{parsed_json, Json, JsonV};
use crate::sse::normalize::{normalize, normalize_events};
use crate::text::owned;

pub use crate::speech::TtsAudio;

verus! {

/// Where the brain lives and how to authenticate to it.
#[derive(Debug, Clone)]
pub struct BrainConfig {
    /// Base URL (trailing `/` trimmed).
    pub base_url: String,
    /// The internal token set before the brain boots.
    pub token: String,
    /// The owner Myo acts as (its single local user).
    pub owner: String,
}

impl BrainConfig {
    pub fn new(base_url: &str, token: &str, owner: &str) -> (c: BrainConfig)
        ensures
            c.base_url@ == crate::llm::base_url_of(base_url@),
            c.token@ == token@,
            c.owner@ == owner@,
    {
        BrainConfig { base_url: crate::llm::normalize_base_url(base_url), token: owned(token), owner: owned(owner) }
    }
}

/// A form flag: `true` or `false`.
pub fn bstr(b: bool) -> (r: &'static str)
    ensures
        r@ == (if b { "true"@ } else { "false"@ }),
{
    if b {
        "true"
    } else {
        "false"
    }
}

/// The form fields of a chat turn: the message and session, agent mode,
/// memory on, the two per-turn capability flags and the incognito switch.
pub open spec fn chat_fields(message: Seq<char>, session: Seq<char>, caps: Capabilities, incognito: bool) -> Seq<(Seq<char>, Seq<char>)> {
    let b = |x: bool| if x { "true"@ } else { "false"@ };
    seq![
        ("message"@, message),
        ("session"@, session),
        ("mode"@, "agent"@),
        ("use_rag"@, "true"@),
        ("allow_bash"@, b(caps.code)),
        ("allow_web_search"@, b(caps.web)),
        ("incognito"@, b(incognito)),
    ]
}

pub open spec fn fields_view(v: Seq<(String, String)>) -> Seq<(Seq<char>, Seq<char>)> {
    Seq::new(v.len(), |i: int| (v[i].0@, v[i].1@))
}

/// The multipart fields of a chat turn.
pub fn chat_form(message: &str, session: &str, caps: Capabilities, incognito: bool) -> (r: Vec<(String, String)>)
    ensures
        fields_view(r@) == chat_fields(message@, session@, caps, incognito),
{
    let r = vec![
        (owned("message"), owned(message)),
        (owned("session"), owned(session)),
        (owned("mode"), owned("agent")),
        (owned("use_rag"), owned("true")),
        (owned("allow_bash"), owned(bstr(caps.allow_bash()))),
        (owned("allow_web_search"), owned(bstr(caps.allow_web_search()))),
        (owned("incognito"), owned(bstr(incognito))),
    ];
    assert(fields_view(r@) =~= chat_fields(message@, session@, caps, incognito));
    r
}

/// The events one streamed frame folds into: none when it is not JSON (a
/// malformed frame is skipped rather than ending the turn).
pub open spec fn frame_events(data: Seq<char>, turn: u64) -> Seq<crate::event::MyoEventV> {
    match parsed_json(data) {
        Some(v) => normalize_events(v, turn),
        None => seq![],
    }
}

/// Parse one streamed `data:` frame and normalize it.
pub fn frame_to_events(data: &str, turn: TurnId) -> (r: Vec<MyoEvent>)
    ensures
        events_view(r@) == frame_events(data@, turn),
{
    match Json::parse(data) {
        Some(v) => normalize(&v, turn),
        None => {
            let r: Vec<MyoEvent> = Vec::new();
            assert(events_view(r@) =~= seq![]);
            r
        },
    }
}

/// `/api/health`: healthy when `status` is `healthy`.
pub fn health_ok(v: &Json) -> (r: bool)
    ensures
        r == (v@.str_member("status"@) == Some("healthy"@)),
{
    match v.get_str("status") {
        Some(s) => crate::text::eq_str(s, "healthy"),
        None => false,
    }
}

/// `/api/version`: the `version` string, or empty.
pub fn version_of(v: &Json) -> (r: String)
    ensures
        r@ == crate::sse::normalize::field_str(v@, "version"@),
{
    match v.get_str("version") {
        Some(s) => owned(s),
        None => String::new(),
    }
}

/// `/api/session`: the new session's `id`.
pub fn session_id(v: &Json) -> (r: Option<String>)
    ensures
        crate::json::opt_view(r) == v@.str_member("id"@),
{
    match v.get_str("id") {
        Some(s) => Some(owned(s)),
        None => None,
    }
}

/// The brain's speech reply: its base64 `audio`, which is MP3.
pub fn tts_reply(v: &Json) -> (r: Option<TtsAudio>)
    ensures
        match v@.str_member("audio"@) {
            Some(a) => r matches Some(t) && t.b64@ == a && t.mime@ == "audio/mpeg"@,
            None => r is None,
        },
{
    match v.get_str("audio") {
        Some(a) => Some(TtsAudio { b64: owned(a), mime: owned("audio/mpeg") }),
        None => None,
    }
}

/// A tool the brain reports disabled: `enabled` is `false` and it has an
/// `id`.
pub open spec fn disabled_id(t: JsonV) -> Option<Seq<char>> {
    if crate::sse::normalize::field_bool(t, "enabled"@) == Some(false) {
        t.str_member("id"@)
    } else {
        None
    }
}

/// The ids of the disabled tools in a list, in order.
pub open spec fn disabled_ids(ts: Seq<JsonV>) -> Seq<Seq<char>>
    decreases ts.len(),
{
    if ts.len() == 0 {
        seq![]
    } else {
        disabled_ids(ts.drop_last()) + match disabled_id(ts.last()) {
            Some(id) => seq![id],
            None => seq![],
        }
    }
}

/// `/api/tools`: the ids of the tools currently disabled.
pub fn disabled_tools_of(v: &Json) -> (r: Vec<String>)
    ensures
        crate::capabilities::texts(r@) == match v@.get("tools"@) {
            Some(JsonV::Array(ts)) => disabled_ids(ts),
            _ => seq![],
        },
{
    let mut out: Vec<String> = Vec::new();
    match v.get("tools") {
        Some(Json::Array(ts)) => {
            let ghost tv = v@.get("tools"@)->0->Array_0;
            let mut i: usize = 0;
            while i < ts.len()
                invariant
                    i <= ts@.len(),
                    tv.len() == ts@.len(),
                    forall|k: int| 0 <= k < ts@.len() ==> #[trigger] tv[k] == ts@[k]@,
                    crate::capabilities::texts(out@) == disabled_ids(tv.subrange(0, i as int)),
                decreases ts@.len() - i,
            {
                let t = &ts[i];
                assert(tv.subrange(0, i + 1).drop_last() =~= tv.subrange(0, i as int));
                let ghost before = crate::capabilities::texts(out@);
                let off = match t.get("enabled") {
                    Some(x) => x.as_bool() == Some(false),
                    None => false,
                };
                if off {
                    match t.get_str("id") {
                        Some(id) => {
                            out.push(owned(id));
                            assert(crate::capabilities::texts(out@) =~= before + seq![id@]);
                        },
                        None => {
                            assert(crate::capabilities::texts(out@) =~= before + Seq::<Seq<char>>::empty());
                        },
                    }
                } else {
                    assert(crate::capabilities::texts(out@) =~= before + Seq::<Seq<char>>::empty());
                }
                i = i + 1;
            }
            assert(tv.subrange(0, ts@.len() as int) =~= tv);
            out
        },
        _ => {
            assert(crate::capabilities::texts(out@) =~= seq![]);
            out
        },
    }
}

/// The body that persists the disabled-tools list: `{disabled: […]}`.
pub fn disabled_tools_body(disabled: &[String]) -> (r: Json)
    ensures
        r@ == JsonV::Object(seq![("disabled"@, JsonV::Array(Seq::new(disabled@.len(), |i: int| JsonV::Str(disabled@[i]@))))]),
{
    let mut items: Vec<Json> = Vec::new();
    let mut i: usize = 0;
    while i < disabled.len()
        invariant
            i <= disabled@.len(),
            items@.len() == i,
            forall|k: int| 0 <= k < i ==> #[trigger] items@[k]@ == JsonV::Str(disabled@[k]@),
        decreases disabled@.len() - i,
    {
        items.push(Json::text(disabled[i].as_str()));
        i = i + 1;
    }
    let arr = Json::Array(items);
    assert forall|k: int| 0 <= k < disabled@.len() implies arr@->Array_0[k] == JsonV::Str(disabled@[k]@) by {
        assert(items@[k]@ == JsonV::Str(disabled@[k]@));
    }
    assert(arr@->Array_0 =~= Seq::new(disabled@.len(), |k: int| JsonV::Str(disabled@[k]@)));
    let m = vec![(owned("disabled"), arr)];
    assert(crate::json::pairs_view(m@) =~= seq![("disabled"@, JsonV::Array(Seq::new(disabled@.len(), |k: int| JsonV::Str(disabled@[k]@))))]);
    crate::event::object(m)
}

// ---------------------------------------------------------------------------
// One streamed chat turn.
// ---------------------------------------------------------------------------

/// The events decoded items yield: each data frame folded in, up to the
/// first `[DONE]`.
pub open spec fn stream_events(items: Seq<SseEvent>, turn: u64) -> Seq<MyoEventV>
    decreases items.len(),
{
    if items.len() == 0 {
        seq![]
    } else {
        match items[0] {
            SseEvent::Done => seq![],
            SseEvent::Data(s) => frame_events(s, turn) + stream_events(items.drop_first(), turn),
        }
    }
}

/// Do the items hold a `[DONE]`?
pub open spec fn has_done(items: Seq<SseEvent>) -> bool {
    exists|i: int| 0 <= i < items.len() && items[i] is Done
}

/// The events that close a stream: the trailing unterminated frame when
/// `[DONE]` was never seen, then the end of the turn.
pub open spec fn closing_events(finished: bool, buffered: Seq<u8>, turn: u64) -> Seq<MyoEventV> {
    (if !finished && buffered.len() > 0 {
        match block_event(buffered) {
            Some(SseEvent::Data(s)) => frame_events(s, turn),
            _ => seq![],
        }
    } else {
        seq![]
    }) + seq![MyoEventV::AssistantDone { turn: turn }]
}

/// One chat turn's stream from the brain: the decoder, whether `[DONE]` has
/// been seen, and the turn the events belong to.
pub struct BrainStream {
    decoder: SseDecoder,
    done: bool,
    turn: TurnId,
}

impl BrainStream {
    pub closed spec fn buffered(&self) -> Seq<u8> {
        self.decoder.buffered()
    }

    pub closed spec fn finished(&self) -> bool {
        self.done
    }

    pub closed spec fn turn_id(&self) -> TurnId {
        self.turn
    }

    pub fn new(turn: TurnId) -> (b: Self)
        ensures
            b.buffered() == Seq::<u8>::empty(),
            !b.finished(),
            b.turn_id() == turn,
    {
        BrainStream { decoder: SseDecoder::new(), done: false, turn }
    }

    /// Has the stream said `[DONE]`? The edge stops reading then.
    pub fn is_done(&self) -> (r: bool)
        ensures
            r == self.finished(),
    {
        self.done
    }

    /// Take in one network chunk and return the events to emit: every
    /// complete data frame, normalized, up to a `[DONE]`. Once `[DONE]` has
    /// been seen, further chunks are ignored.
    pub fn absorb(&mut self, chunk: &[u8]) -> (r: Vec<MyoEvent>)
        ensures
            final(self).turn_id() == old(self).turn_id(),
            old(self).finished() ==> r@.len() == 0 && final(self).finished() && final(self).buffered()
                == old(self).buffered(),
            !old(self).finished() ==> ({
                let items = items_of(frames(old(self).buffered() + chunk@).0);
                &&& events_view(r@) == stream_events(items, old(self).turn_id())
                &&& final(self).finished() == has_done(items)
                &&& final(self).buffered() == frames(old(self).buffered() + chunk@).1
            }),
    {
        let mut out: Vec<MyoEvent> = Vec::new();
        if self.done {
            return out;
        }
        let ghost fr = frames(self.decoder.buffered() + chunk@);
        let mut items = self.decoder.feed(chunk);
        let ghost all = items_view(items@);
        let ghost turn = self.turn;
        let n = items.len();
        let mut k: usize = 0;
        assert(all.subrange(0, n as int) =~= all);
        assert(events_view(out@) =~= Seq::<MyoEventV>::empty());
        while items.len() > 0
            invariant
                n == all.len(),
                all == items_of(fr.0),
                fr == frames(old(self).buffered() + chunk@),
                self.decoder.buffered() == fr.1,
                turn == old(self).turn,
                !old(self).done,
                k + items@.len() == n,
                forall|j: int| 0 <= j < items@.len() ==> #[trigger] items@[j]@ == all[k + j],
                stream_events(all, turn) == events_view(out@) + stream_events(all.subrange(k as int, n as int), turn),
                forall|j: int| 0 <= j < k ==> !(#[trigger] all[j] is Done),
                self.turn == turn,
                !self.done,
            decreases items@.len(),
        {
            let ghost rest = all.subrange(k as int, n as int);
            assert(rest[0] == all[k as int]);
            assert(rest.drop_first() =~= all.subrange(k + 1, n as int));
            let item = items.remove(0);
            assert(item@ == all[k as int]);
            match item {
                SseItem::Done => {
                    self.done = true;
                    assert(all[k as int] is Done);
                    assert(stream_events(all.subrange(k as int, n as int), turn) =~= Seq::<MyoEventV>::empty());
                    assert(events_view(out@) =~= stream_events(all, turn));
                    return out;
                },
                SseItem::Data(s) => {
                    let evs = frame_to_events(s.as_str(), self.turn);
                    let ghost before = events_view(out@);
                    let mut e = evs;
                    let ghost ev = events_view(e@);
                    let mut m: usize = 0;
                    let total = e.len();
                    while e.len() > 0
                        invariant
                            total == ev.len(),
                            m + e@.len() == total,
                            forall|j: int| 0 <= j < e@.len() ==> #[trigger] e@[j]@ == ev[m + j],
                            events_view(out@) == before + ev.subrange(0, m as int),
                        decreases e@.len(),
                    {
                        let x = e.remove(0);
                        assert(x@ == ev[m as int]);
                        let ghost prev = events_view(out@);
                        out.push(x);
                        assert(events_view(out@) =~= prev.push(x@));
                        assert(events_view(out@) =~= before + ev.subrange(0, m + 1));
                        m = m + 1;
                    }
                    assert(ev.subrange(0, total as int) =~= ev);
                    assert(events_view(out@) + stream_events(all.subrange(k + 1, n as int), turn) =~= before + stream_events(rest, turn));
                },
            }
            k = k + 1;
        }
        assert(all.subrange(n as int, n as int) =~= Seq::<SseEvent>::empty());
        assert(events_view(out@) =~= stream_events(all, turn));
        out
    }

    /// The stream ended (or broke off): the events that close the turn.
    pub fn close(&mut self) -> (r: Vec<MyoEvent>)
        ensures
            events_view(r@) == closing_events(old(self).finished(), old(self).buffered(), old(self).turn_id()),
    {
        let mut out: Vec<MyoEvent> = Vec::new();
        let ghost before = self.decoder.buffered();
        if !self.done {
            if let Some(SseItem::Data(s)) = self.decoder.finish() {
                out = frame_to_events(s.as_str(), self.turn);
            }
        }
        let ghost mid = events_view(out@);
        out.push(MyoEvent::AssistantDone { turn: self.turn });
        assert(events_view(out@) =~= mid + seq![MyoEventV::AssistantDone { turn: self.turn }]);
        out
    }
}

/// The error a failed brain reply becomes: its status and the first 500
/// characters of its body.
pub open spec fn failure_text(status_text: Seq<char>, body: Seq<char>) -> Seq<char> {
    "HTTP "@ + status_text + ": "@ + crate::speech::take_chars(body, 500)
}

/// Accept a brain reply with a 2xx status; any other is an error carrying
/// its status (as displayed) and the start of its body.
pub fn check_reply(status: u16, status_text: &str, body: &str) -> (r: Result<(), String>)
    ensures
        200 <= status < 300 ==> r is Ok,
        !(200 <= status < 300) ==> (r matches Err(e) && e@ == failure_text(status_text@, body@)),
{
    if 200 <= status && status < 300 {
        return Ok(());
    }
    let mut e = owned("HTTP ");
    vstd::string::StringExecFns::append(&mut e, status_text);
    vstd::string::StringExecFns::append(&mut e, ": ");
    let b = crate::speech::first_chars(body, 500);
    vstd::string::StringExecFns::append(&mut e, b.as_str());
    Err(e)
}

} // verus!
