//! Folding one decoded agent event into the normalized intent stream — the
//! only place that knows the agent's wire vocabulary.
//!
//! A `type` field wins; only its absence makes the event a bare text `delta`.
//! Unknown types are dropped, so new agent events never break the shell.

use vstd::prelude::*;

use crate::event::{events_view, pairs_view, MyoEvent, MyoEventV, TurnId};
use crate::json::{jopt_u64, opt_view, Json, JsonV};
use crate::text::{eq_str, owned};

verus! {

// ---------------------------------------------------------------------------
// Reading fields.
// ---------------------------------------------------------------------------

/// The `key` member as text, or the empty text when it is absent or not a
/// string.
pub open spec fn field_str(v: JsonV, key: Seq<char>) -> Seq<char> {
    match v.str_member(key) {
        Some(s) => s,
        None => Seq::empty(),
    }
}

/// The `key` member as a non-negative integer.
pub open spec fn field_u64(v: JsonV, key: Seq<char>) -> Option<u64> {
    match v.get(key) {
        Some(x) => x.as_u64(),
        None => None,
    }
}

/// The `key` member as an integer that fits `i64`.
pub open spec fn field_i64(v: JsonV, key: Seq<char>) -> Option<i64> {
    match v.get(key) {
        Some(x) => x.as_i64(),
        None => None,
    }
}

/// The `key` member as a boolean.
pub open spec fn field_bool(v: JsonV, key: Seq<char>) -> Option<bool> {
    match v.get(key) {
        Some(x) => x.as_bool(),
        None => None,
    }
}

/// The first of two optional texts that is present.
pub open spec fn first_of(a: Option<Seq<char>>, b: Option<Seq<char>>) -> Option<Seq<char>> {
    match a {
        Some(s) => Some(s),
        None => b,
    }
}

/// The `key` member itself, or `null` when absent.
pub open spec fn member_or_null(v: JsonV, key: Seq<char>) -> JsonV {
    match v.get(key) {
        Some(x) => x,
        None => JsonV::Null,
    }
}

fn str_field(v: &Json, key: &str) -> (r: String)
    ensures
        r@ == field_str(v@, key@),
{
    match v.get_str(key) {
        Some(s) => owned(s),
        None => String::new(),
    }
}

fn opt_str(v: &Json, key: &str) -> (r: Option<String>)
    ensures
        opt_view(r) == v@.str_member(key@),
{
    match v.get_str(key) {
        Some(s) => Some(owned(s)),
        None => None,
    }
}

fn opt_u64(v: &Json, key: &str) -> (r: Option<u64>)
    ensures
        r == field_u64(v@, key@),
{
    match v.get(key) {
        Some(x) => x.as_u64(),
        None => None,
    }
}

fn opt_i64(v: &Json, key: &str) -> (r: Option<i64>)
    ensures
        r == field_i64(v@, key@),
{
    match v.get(key) {
        Some(x) => x.as_i64(),
        None => None,
    }
}

fn member_copy(v: &Json, key: &str) -> (r: Json)
    ensures
        r@ == member_or_null(v@, key@),
{
    match v.get(key) {
        Some(x) => x.duplicate(),
        None => Json::Null,
    }
}

fn one(e: MyoEvent) -> (r: Vec<MyoEvent>)
    ensures
        events_view(r@) == seq![e@],
{
    let r = vec![e];
    assert(events_view(r@) =~= seq![e@]);
    r
}

// ---------------------------------------------------------------------------
// The vocabulary.
// ---------------------------------------------------------------------------

/// The metadata kinds forwarded under the progress channel as they are.
pub open spec fn is_metadata_kind(ty: Seq<char>) -> bool {
    ty == "agent_prep"@ || ty == "budget_exceeded"@ || ty == "metrics"@ || ty == "model_info"@
        || ty == "compacted"@ || ty == "message_saved"@ || ty == "attachments"@
        || ty == "web_sources"@ || ty == "rag_sources"@ || ty == "memories_used"@
        || ty == "research_progress"@ || ty == "research_sources"@
        || ty == "research_findings"@ || ty == "research_done"@
}

/// A bare `{delta: …}` chunk: answer text, unless it is a `thinking` token,
/// which goes to progress instead of speech.
pub open spec fn delta_events(v: JsonV, turn: u64) -> Seq<MyoEventV> {
    match v.str_member("delta"@) {
        None => seq![],
        Some(text) => if field_bool(v, "thinking"@) == Some(true) {
            seq![
                MyoEventV::Progress {
                    turn: turn,
                    kind: "thinking"@,
                    data: JsonV::Object(seq![("text"@, JsonV::Str(text))]),
                },
            ]
        } else {
            seq![MyoEventV::AssistantDelta { turn: turn, text: text }]
        },
    }
}

/// `tool_output`: the activity output (its image is `image_url`, else the
/// browser's `screenshot`), then any piggy-backed `ui_event` directive, whose
/// data is the whole event.
pub open spec fn tool_output_events(v: JsonV, turn: u64) -> Seq<MyoEventV> {
    let out = MyoEventV::ActivityOutput {
        turn: turn,
        tool: field_str(v, "tool"@),
        output: v.str_member("output"@),
        exit_code: field_i64(v, "exit_code"@),
        image_url: first_of(v.str_member("image_url"@), v.str_member("screenshot"@)),
        round: field_u64(v, "round"@),
    };
    match v.str_member("ui_event"@) {
        Some(d) => seq![out, MyoEventV::Ui { turn: turn, directive: d, data: v }],
        None => seq![out],
    }
}

/// `ui_control`: the directive is `data.ui_event`; without a non-empty one
/// the event is dropped.
pub open spec fn ui_control_events(v: JsonV, turn: u64) -> Seq<MyoEventV> {
    match v.get("data"@) {
        Some(d) => match d.str_member("ui_event"@) {
            Some(dir) => if dir.len() > 0 {
                seq![MyoEventV::Ui { turn: turn, directive: dir, data: d }]
            } else {
                seq![]
            },
            None => seq![],
        },
        None => seq![],
    }
}

/// The events of one typed agent event.
pub open spec fn typed_events(v: JsonV, ty: Seq<char>, turn: u64) -> Seq<MyoEventV> {
    if ty == "tool_start"@ {
        seq![
            MyoEventV::ActivityStart {
                turn: turn,
                tool: field_str(v, "tool"@),
                command: v.str_member("command"@),
                round: field_u64(v, "round"@),
            },
        ]
    } else if ty == "tool_progress"@ {
        seq![
            MyoEventV::ActivityProgress {
                turn: turn,
                tool: field_str(v, "tool"@),
                progress: first_of(v.str_member("tail"@), v.str_member("progress"@)),
                round: field_u64(v, "round"@),
            },
        ]
    } else if ty == "tool_output"@ {
        tool_output_events(v, turn)
    } else if ty == "doc_stream_open"@ {
        seq![
            MyoEventV::ArtifactOpen {
                turn: turn,
                title: v.str_member("title"@),
                language: v.str_member("language"@),
            },
        ]
    } else if ty == "doc_stream_delta"@ {
        seq![MyoEventV::ArtifactDelta { turn: turn, content: field_str(v, "content"@) }]
    } else if ty == "doc_update"@ {
        seq![
            MyoEventV::ArtifactUpdate {
                turn: turn,
                doc_id: v.str_member("doc_id"@),
                title: v.str_member("title"@),
                language: v.str_member("language"@),
                content: v.str_member("content"@),
                version: field_i64(v, "version"@),
            },
        ]
    } else if ty == "doc_suggestions"@ {
        seq![
            MyoEventV::ArtifactSuggestions {
                turn: turn,
                doc_id: v.str_member("doc_id"@),
                suggestions: member_or_null(v, "suggestions"@),
            },
        ]
    } else if ty == "ui_control"@ {
        ui_control_events(v, turn)
    } else if ty == "agent_step"@ {
        seq![
            MyoEventV::Progress {
                turn: turn,
                kind: "agent_step"@,
                data: JsonV::Object(seq![("round"@, jopt_u64(field_u64(v, "round"@)))]),
            },
        ]
    } else if is_metadata_kind(ty) {
        seq![
            MyoEventV::Progress {
                turn: turn,
                kind: ty,
                data: match v.get("data"@) {
                    Some(d) => d,
                    None => v,
                },
            },
        ]
    } else {
        seq![]
    }
}

/// The events one decoded agent event folds into.
pub open spec fn normalize_events(v: JsonV, turn: u64) -> Seq<MyoEventV> {
    match v.str_member("type"@) {
        None => delta_events(v, turn),
        Some(ty) => typed_events(v, ty, turn),
    }
}

fn metadata_kind(ty: &str) -> (r: bool)
    ensures
        r == is_metadata_kind(ty@),
{
    eq_str(ty, "agent_prep") || eq_str(ty, "budget_exceeded") || eq_str(ty, "metrics") || eq_str(
        ty,
        "model_info",
    ) || eq_str(ty, "compacted") || eq_str(ty, "message_saved") || eq_str(ty, "attachments")
        || eq_str(ty, "web_sources") || eq_str(ty, "rag_sources") || eq_str(ty, "memories_used")
        || eq_str(ty, "research_progress") || eq_str(ty, "research_sources") || eq_str(
        ty,
        "research_findings",
    ) || eq_str(ty, "research_done")
}

fn normalize_delta(v: &Json, turn: TurnId) -> (r: Vec<MyoEvent>)
    ensures
        events_view(r@) == delta_events(v@, turn),
{
    let text = match v.get_str("delta") {
        Some(t) => t,
        None => {
            let r: Vec<MyoEvent> = Vec::new();
            assert(events_view(r@) =~= seq![]);
            return r;
        },
    };
    let thinking = match v.get("thinking") {
        Some(x) => x.as_bool(),
        None => None,
    };
    if thinking == Some(true) {
        let members = vec![(owned("text"), Json::text(text))];
        assert(pairs_view(members@) =~= seq![("text"@, JsonV::Str(text@))]);
        let data = crate::event::object(members);
        one(MyoEvent::Progress { turn, kind: owned("thinking"), data })
    } else {
        one(MyoEvent::AssistantDelta { turn, text: owned(text) })
    }
}

fn normalize_tool_output(v: &Json, turn: TurnId) -> (r: Vec<MyoEvent>)
    ensures
        events_view(r@) == tool_output_events(v@, turn),
{
    let image_url = match opt_str(v, "image_url") {
        Some(s) => Some(s),
        None => opt_str(v, "screenshot"),
    };
    let mut out = one(
        MyoEvent::ActivityOutput {
            turn,
            tool: str_field(v, "tool"),
            output: opt_str(v, "output"),
            exit_code: opt_i64(v, "exit_code"),
            image_url,
            round: opt_u64(v, "round"),
        },
    );
    if let Some(directive) = opt_str(v, "ui_event") {
        let ghost before = out@;
        out.push(MyoEvent::Ui { turn, directive, data: v.duplicate() });
        assert(events_view(out@) =~= events_view(before).push(out@[1]@));
    }
    out
}

fn normalize_ui_control(v: &Json, turn: TurnId) -> (r: Vec<MyoEvent>)
    ensures
        events_view(r@) == ui_control_events(v@, turn),
{
    let none: Vec<MyoEvent> = Vec::new();
    assert(events_view(none@) =~= seq![]);
    match v.get("data") {
        Some(d) => match d.get_str("ui_event") {
            Some(dir) => if !dir.is_empty() {
                one(MyoEvent::Ui { turn, directive: owned(dir), data: d.duplicate() })
            } else {
                none
            },
            None => none,
        },
        None => none,
    }
}

/// Fold one decoded agent event into zero or more intent-stream events.
///
/// `tool_progress`, `agent_prep` and `budget_exceeded` are handled even though
/// the chat route filters them today: other endpoints forward them.
pub fn normalize(v: &Json, turn: TurnId) -> (r: Vec<MyoEvent>)
    ensures
        events_view(r@) == normalize_events(v@, turn),
{
    let ty = match v.get_str("type") {
        Some(t) => t,
        None => return normalize_delta(v, turn),
    };
    if eq_str(ty, "tool_start") {
        one(
            MyoEvent::ActivityStart {
                turn,
                tool: str_field(v, "tool"),
                command: opt_str(v, "command"),
                round: opt_u64(v, "round"),
            },
        )
    } else if eq_str(ty, "tool_progress") {
        let progress = match opt_str(v, "tail") {
            Some(s) => Some(s),
            None => opt_str(v, "progress"),
        };
        one(
            MyoEvent::ActivityProgress {
                turn,
                tool: str_field(v, "tool"),
                progress,
                round: opt_u64(v, "round"),
            },
        )
    } else if eq_str(ty, "tool_output") {
        normalize_tool_output(v, turn)
    } else if eq_str(ty, "doc_stream_open") {
        one(
            MyoEvent::ArtifactOpen {
                turn,
                title: opt_str(v, "title"),
                language: opt_str(v, "language"),
            },
        )
    } else if eq_str(ty, "doc_stream_delta") {
        one(MyoEvent::ArtifactDelta { turn, content: str_field(v, "content") })
    } else if eq_str(ty, "doc_update") {
        one(
            MyoEvent::ArtifactUpdate {
                turn,
                doc_id: opt_str(v, "doc_id"),
                title: opt_str(v, "title"),
                language: opt_str(v, "language"),
                content: opt_str(v, "content"),
                version: opt_i64(v, "version"),
            },
        )
    } else if eq_str(ty, "doc_suggestions") {
        one(
            MyoEvent::ArtifactSuggestions {
                turn,
                doc_id: opt_str(v, "doc_id"),
                suggestions: member_copy(v, "suggestions"),
            },
        )
    } else if eq_str(ty, "ui_control") {
        normalize_ui_control(v, turn)
    } else if eq_str(ty, "agent_step") {
        let members = vec![(owned("round"), Json::from_opt_u64(opt_u64(v, "round")))];
        assert(pairs_view(members@) =~= seq![("round"@, jopt_u64(field_u64(v@, "round"@)))]);
        let data = crate::event::object(members);
        one(MyoEvent::Progress { turn, kind: owned("agent_step"), data })
    } else if metadata_kind(ty) {
        let data = match v.get("data") {
            Some(d) => d.duplicate(),
            None => v.duplicate(),
        };
        one(MyoEvent::Progress { turn, kind: owned(ty), data })
    } else {
        let r: Vec<MyoEvent> = Vec::new();
        assert(events_view(r@) =~= seq![]);
        r
    }
}

/// A `doc_suggestions` event becomes exactly one suggestions event for the
/// turn that carries the event's own `suggestions` member unchanged (and
/// `null` only when the member is absent), and its `doc_id` when that is text.
pub proof fn law_suggestions_are_carried(v: JsonV, turn: u64)
    requires
        v.str_member("type"@) == Some("doc_suggestions"@),
    ensures
        normalize_events(v, turn).len() == 1,
        normalize_events(v, turn)[0] matches MyoEventV::ArtifactSuggestions { turn: t, doc_id, suggestions }
            && t == turn && doc_id == v.str_member("doc_id"@)
            && (v.get("suggestions"@) matches Some(s) ==> suggestions == s)
            && (v.get("suggestions"@) is None ==> suggestions == JsonV::Null),
{
    reveal_strlit("doc_suggestions");
    reveal_strlit("tool_start");
    reveal_strlit("tool_progress");
    reveal_strlit("tool_output");
    reveal_strlit("doc_stream_open");
    reveal_strlit("doc_stream_delta");
    reveal_strlit("doc_update");
    let ds = "doc_suggestions"@;
    assert(ds.len() == 15);
    assert("tool_start"@.len() == 10 && "tool_progress"@.len() == 13 && "tool_output"@.len() == 11);
    assert("doc_stream_delta"@.len() == 16 && "doc_update"@.len() == 10);
    assert("doc_stream_open"@[5] == 't' && ds[5] == 'u');
    assert(ds != "doc_stream_open"@);
    assert(normalize_events(v, turn) == typed_events(v, ds, turn));
}

} // verus!
