//! The normalized `myo://` intent stream — the small, stable vocabulary the
//! UI renders. Each [`MyoEvent`] knows its own channel and JSON body
//! ([`MyoEvent::emit`]).

pub mod channel;

use vstd::prelude::*;

pub use crate::json::pairs_view;
use crate::json::{jnum_u64, jopt_i64, jopt_str, jopt_u64, opt_view, Json, JsonV};
use crate::text::owned;

verus! {

/// A turn is one utterance→answer round; every event of a round carries its id.
pub type TurnId = u64;

/// A routed event: a channel name plus its JSON body.
#[derive(Debug, PartialEq)]
pub struct Emit {
    pub channel: &'static str,
    pub payload: Json,
}

/// One normalized event in the `myo://` intent stream.
#[derive(Debug, PartialEq)]
pub enum MyoEvent {
    /// A chunk of the assistant's spoken/written answer.
    AssistantDelta { turn: TurnId, text: String },
    /// The assistant has finished this turn's answer.
    AssistantDone { turn: TurnId },
    /// A partial (still-being-spoken) transcript of the user.
    TranscriptPartial { turn: TurnId, text: String, speaker: Option<String> },
    /// The finalized transcript of one user utterance.
    TranscriptFinal { turn: TurnId, text: String, speaker: Option<String> },
    /// A tool started. `command` is its headline (e.g. the shell line).
    ActivityStart { turn: TurnId, tool: String, command: Option<String>, round: Option<u64> },
    /// A running tool reported progress.
    ActivityProgress { turn: TurnId, tool: String, progress: Option<String>, round: Option<u64> },
    /// A tool finished. May carry output text and/or an inline image.
    ActivityOutput {
        turn: TurnId,
        tool: String,
        output: Option<String>,
        exit_code: Option<i64>,
        image_url: Option<String>,
        round: Option<u64>,
    },
    /// The agent began streaming a document.
    ArtifactOpen { turn: TurnId, title: Option<String>, language: Option<String> },
    /// A chunk of the streaming document body.
    ArtifactDelta { turn: TurnId, content: String },
    /// A whole-document update that replaces the body.
    ArtifactUpdate {
        turn: TurnId,
        doc_id: Option<String>,
        title: Option<String>,
        language: Option<String>,
        content: Option<String>,
        version: Option<i64>,
    },
    /// Edit suggestions for an open document.
    ArtifactSuggestions { turn: TurnId, doc_id: Option<String>, suggestions: Json },
    /// An agent-driven UI directive.
    Ui { turn: TurnId, directive: String, data: Json },
    /// Progress and ancillary metadata, discriminated by `kind`.
    Progress { turn: TurnId, kind: String, data: Json },
    /// Synthesized speech for this turn, base64-encoded.
    AudioReady { turn: TurnId, b64: String, mime: String },
    /// No server-side speech: the shell should voice this text itself.
    AudioSpeak { turn: TurnId, text: String },
    /// An engine changed state.
    Engine { name: String, status: String, detail: Option<String> },
    /// Dream mode is consolidating memory during downtime.
    Dream { phase: String, note: Option<String> },
}

/// The mathematical value of a [`MyoEvent`].
pub enum MyoEventV {
    AssistantDelta { turn: u64, text: Seq<char> },
    AssistantDone { turn: u64 },
    TranscriptPartial { turn: u64, text: Seq<char>, speaker: Option<Seq<char>> },
    TranscriptFinal { turn: u64, text: Seq<char>, speaker: Option<Seq<char>> },
    ActivityStart { turn: u64, tool: Seq<char>, command: Option<Seq<char>>, round: Option<u64> },
    ActivityProgress { turn: u64, tool: Seq<char>, progress: Option<Seq<char>>, round: Option<u64> },
    ActivityOutput { turn: u64, tool: Seq<char>, output: Option<Seq<char>>, exit_code: Option<i64>, image_url: Option<Seq<char>>, round: Option<u64> },
    ArtifactOpen { turn: u64, title: Option<Seq<char>>, language: Option<Seq<char>> },
    ArtifactDelta { turn: u64, content: Seq<char> },
    ArtifactUpdate { turn: u64, doc_id: Option<Seq<char>>, title: Option<Seq<char>>, language: Option<Seq<char>>, content: Option<Seq<char>>, version: Option<i64> },
    ArtifactSuggestions { turn: u64, doc_id: Option<Seq<char>>, suggestions: JsonV },
    Ui { turn: u64, directive: Seq<char>, data: JsonV },
    Progress { turn: u64, kind: Seq<char>, data: JsonV },
    AudioReady { turn: u64, b64: Seq<char>, mime: Seq<char> },
    AudioSpeak { turn: u64, text: Seq<char> },
    Engine { name: Seq<char>, status: Seq<char>, detail: Option<Seq<char>> },
    Dream { phase: Seq<char>, note: Option<Seq<char>> },
}

impl View for MyoEvent {
    type V = MyoEventV;

    open spec fn view(&self) -> MyoEventV {
        match *self {
            MyoEvent::AssistantDelta { turn, text } => MyoEventV::AssistantDelta { turn: turn, text: text@ },
            MyoEvent::AssistantDone { turn } => MyoEventV::AssistantDone { turn: turn },
            MyoEvent::TranscriptPartial { turn, text, speaker } => MyoEventV::TranscriptPartial { turn: turn, text: text@, speaker: opt_view(speaker) },
            MyoEvent::TranscriptFinal { turn, text, speaker } => MyoEventV::TranscriptFinal { turn: turn, text: text@, speaker: opt_view(speaker) },
            MyoEvent::ActivityStart { turn, tool, command, round } => MyoEventV::ActivityStart { turn: turn, tool: tool@, command: opt_view(command), round: round },
            MyoEvent::ActivityProgress { turn, tool, progress, round } => MyoEventV::ActivityProgress { turn: turn, tool: tool@, progress: opt_view(progress), round: round },
            MyoEvent::ActivityOutput { turn, tool, output, exit_code, image_url, round } => MyoEventV::ActivityOutput { turn: turn, tool: tool@, output: opt_view(output), exit_code: exit_code, image_url: opt_view(image_url), round: round },
            MyoEvent::ArtifactOpen { turn, title, language } => MyoEventV::ArtifactOpen { turn: turn, title: opt_view(title), language: opt_view(language) },
            MyoEvent::ArtifactDelta { turn, content } => MyoEventV::ArtifactDelta { turn: turn, content: content@ },
            MyoEvent::ArtifactUpdate { turn, doc_id, title, language, content, version } => MyoEventV::ArtifactUpdate { turn: turn, doc_id: opt_view(doc_id), title: opt_view(title), language: opt_view(language), content: opt_view(content), version: version },
            MyoEvent::ArtifactSuggestions { turn, doc_id, suggestions } => MyoEventV::ArtifactSuggestions { turn: turn, doc_id: opt_view(doc_id), suggestions: suggestions@ },
            MyoEvent::Ui { turn, directive, data } => MyoEventV::Ui { turn: turn, directive: directive@, data: data@ },
            MyoEvent::Progress { turn, kind, data } => MyoEventV::Progress { turn: turn, kind: kind@, data: data@ },
            MyoEvent::AudioReady { turn, b64, mime } => MyoEventV::AudioReady { turn: turn, b64: b64@, mime: mime@ },
            MyoEvent::AudioSpeak { turn, text } => MyoEventV::AudioSpeak { turn: turn, text: text@ },
            MyoEvent::Engine { name, status, detail } => MyoEventV::Engine { name: name@, status: status@, detail: opt_view(detail) },
            MyoEvent::Dream { phase, note } => MyoEventV::Dream { phase: phase@, note: opt_view(note) },
        }
    }
}

/// The events of a vector, by value.
pub open spec fn events_view(v: Seq<MyoEvent>) -> Seq<MyoEventV> {
    v.map_values(|e: MyoEvent| e@)
}


/// An object whose members are `m`, in order.
pub fn object(m: Vec<(String, Json)>) -> (r: Json)
    ensures
        r@ == JsonV::Object(pairs_view(m@)),
{
    let r = Json::Object(m);
    assert(r@->Object_0 =~= pairs_view(m@));
    r
}

/// The channel an event is routed to.
pub open spec fn event_channel(e: MyoEvent) -> Seq<char> {
    match e {
        MyoEvent::AssistantDelta { .. } | MyoEvent::AssistantDone { .. } => channel::ASSISTANT@,
        MyoEvent::TranscriptPartial { .. } | MyoEvent::TranscriptFinal { .. } => channel::TRANSCRIPT@,
        MyoEvent::ActivityStart { .. } | MyoEvent::ActivityProgress { .. }
        | MyoEvent::ActivityOutput { .. } => channel::ACTIVITY@,
        MyoEvent::ArtifactOpen { .. } | MyoEvent::ArtifactDelta { .. }
        | MyoEvent::ArtifactUpdate { .. } | MyoEvent::ArtifactSuggestions { .. } => channel::ARTIFACT@,
        MyoEvent::Ui { .. } => channel::UI@,
        MyoEvent::Progress { .. } => channel::PROGRESS@,
        MyoEvent::AudioReady { .. } | MyoEvent::AudioSpeak { .. } => channel::AUDIO@,
        MyoEvent::Engine { .. } => channel::ENGINE@,
        MyoEvent::Dream { .. } => channel::DREAM@,
    }
}

/// The JSON body of an event.
pub open spec fn event_payload(e: MyoEvent) -> JsonV {
    match e {
        MyoEvent::AssistantDelta { turn, text } => JsonV::Object(seq![("turn"@, jnum_u64(turn)), ("kind"@, JsonV::Str("delta"@)), ("text"@, JsonV::Str(text@))]),
        MyoEvent::AssistantDone { turn } => JsonV::Object(seq![("turn"@, jnum_u64(turn)), ("kind"@, JsonV::Str("done"@))]),
        MyoEvent::TranscriptPartial { turn, text, speaker } => JsonV::Object(seq![("turn"@, jnum_u64(turn)), ("kind"@, JsonV::Str("partial"@)), ("text"@, JsonV::Str(text@)), ("speaker"@, jopt_str(opt_view(speaker)))]),
        MyoEvent::TranscriptFinal { turn, text, speaker } => JsonV::Object(seq![("turn"@, jnum_u64(turn)), ("kind"@, JsonV::Str("final"@)), ("text"@, JsonV::Str(text@)), ("speaker"@, jopt_str(opt_view(speaker)))]),
        MyoEvent::ActivityStart { turn, tool, command, round } => JsonV::Object(seq![("turn"@, jnum_u64(turn)), ("phase"@, JsonV::Str("start"@)), ("tool"@, JsonV::Str(tool@)), ("command"@, jopt_str(opt_view(command))), ("round"@, jopt_u64(round))]),
        MyoEvent::ActivityProgress { turn, tool, progress, round } => JsonV::Object(seq![("turn"@, jnum_u64(turn)), ("phase"@, JsonV::Str("progress"@)), ("tool"@, JsonV::Str(tool@)), ("progress"@, jopt_str(opt_view(progress))), ("round"@, jopt_u64(round))]),
        MyoEvent::ActivityOutput { turn, tool, output, exit_code, image_url, round } => JsonV::Object(seq![("turn"@, jnum_u64(turn)), ("phase"@, JsonV::Str("output"@)), ("tool"@, JsonV::Str(tool@)), ("output"@, jopt_str(opt_view(output))), ("exit_code"@, jopt_i64(exit_code)), ("image_url"@, jopt_str(opt_view(image_url))), ("round"@, jopt_u64(round))]),
        MyoEvent::ArtifactOpen { turn, title, language } => JsonV::Object(seq![("turn"@, jnum_u64(turn)), ("kind"@, JsonV::Str("open"@)), ("title"@, jopt_str(opt_view(title))), ("language"@, jopt_str(opt_view(language)))]),
        MyoEvent::ArtifactDelta { turn, content } => JsonV::Object(seq![("turn"@, jnum_u64(turn)), ("kind"@, JsonV::Str("delta"@)), ("content"@, JsonV::Str(content@))]),
        MyoEvent::ArtifactUpdate { turn, doc_id, title, language, content, version } => JsonV::Object(seq![("turn"@, jnum_u64(turn)), ("kind"@, JsonV::Str("update"@)), ("doc_id"@, jopt_str(opt_view(doc_id))), ("title"@, jopt_str(opt_view(title))), ("language"@, jopt_str(opt_view(language))), ("content"@, jopt_str(opt_view(content))), ("version"@, jopt_i64(version))]),
        MyoEvent::ArtifactSuggestions { turn, doc_id, suggestions } => JsonV::Object(seq![("turn"@, jnum_u64(turn)), ("kind"@, JsonV::Str("suggestions"@)), ("doc_id"@, jopt_str(opt_view(doc_id))), ("suggestions"@, suggestions@)]),
        MyoEvent::Ui { turn, directive, data } => JsonV::Object(seq![("turn"@, jnum_u64(turn)), ("directive"@, JsonV::Str(directive@)), ("data"@, data@)]),
        MyoEvent::Progress { turn, kind, data } => JsonV::Object(seq![("turn"@, jnum_u64(turn)), ("kind"@, JsonV::Str(kind@)), ("data"@, data@)]),
        MyoEvent::AudioReady { turn, b64, mime } => JsonV::Object(seq![("turn"@, jnum_u64(turn)), ("kind"@, JsonV::Str("ready"@)), ("b64"@, JsonV::Str(b64@)), ("mime"@, JsonV::Str(mime@))]),
        MyoEvent::AudioSpeak { turn, text } => JsonV::Object(seq![("turn"@, jnum_u64(turn)), ("kind"@, JsonV::Str("speak"@)), ("text"@, JsonV::Str(text@))]),
        MyoEvent::Engine { name, status, detail } => JsonV::Object(seq![("name"@, JsonV::Str(name@)), ("status"@, JsonV::Str(status@)), ("detail"@, jopt_str(opt_view(detail)))]),
        MyoEvent::Dream { phase, note } => JsonV::Object(seq![("phase"@, JsonV::Str(phase@)), ("note"@, jopt_str(opt_view(note)))]),
    }
}

impl MyoEvent {
    /// Route this event to its channel and build its body.
    pub fn emit(self) -> (r: Emit)
        ensures
            r.channel@ == event_channel(self),
            r.payload@ == event_payload(self),
    {
        let ghost e = self;
        match self {
            MyoEvent::AssistantDelta { turn, text } => {
                let members = vec![
                    (owned("turn"), Json::from_u64(turn)),
                    (owned("kind"), Json::text("delta")),
                    (owned("text"), Json::Str(text)),
                ];
                assert(pairs_view(members@) =~= event_payload(e)->Object_0);
                Emit { channel: channel::ASSISTANT, payload: object(members) }
            },
            MyoEvent::AssistantDone { turn } => {
                let members = vec![
                    (owned("turn"), Json::from_u64(turn)),
                    (owned("kind"), Json::text("done")),
                ];
                assert(pairs_view(members@) =~= event_payload(e)->Object_0);
                Emit { channel: channel::ASSISTANT, payload: object(members) }
            },
            MyoEvent::TranscriptPartial { turn, text, speaker } => {
                let members = vec![
                    (owned("turn"), Json::from_u64(turn)),
                    (owned("kind"), Json::text("partial")),
                    (owned("text"), Json::Str(text)),
                    (owned("speaker"), Json::from_opt_string(speaker)),
                ];
                assert(pairs_view(members@) =~= event_payload(e)->Object_0);
                Emit { channel: channel::TRANSCRIPT, payload: object(members) }
            },
            MyoEvent::TranscriptFinal { turn, text, speaker } => {
                let members = vec![
                    (owned("turn"), Json::from_u64(turn)),
                    (owned("kind"), Json::text("final")),
                    (owned("text"), Json::Str(text)),
                    (owned("speaker"), Json::from_opt_string(speaker)),
                ];
                assert(pairs_view(members@) =~= event_payload(e)->Object_0);
                Emit { channel: channel::TRANSCRIPT, payload: object(members) }
            },
            MyoEvent::ActivityStart { turn, tool, command, round } => {
                let members = vec![
                    (owned("turn"), Json::from_u64(turn)),
                    (owned("phase"), Json::text("start")),
                    (owned("tool"), Json::Str(tool)),
                    (owned("command"), Json::from_opt_string(command)),
                    (owned("round"), Json::from_opt_u64(round)),
                ];
                assert(pairs_view(members@) =~= event_payload(e)->Object_0);
                Emit { channel: channel::ACTIVITY, payload: object(members) }
            },
            MyoEvent::ActivityProgress { turn, tool, progress, round } => {
                let members = vec![
                    (owned("turn"), Json::from_u64(turn)),
                    (owned("phase"), Json::text("progress")),
                    (owned("tool"), Json::Str(tool)),
                    (owned("progress"), Json::from_opt_string(progress)),
                    (owned("round"), Json::from_opt_u64(round)),
                ];
                assert(pairs_view(members@) =~= event_payload(e)->Object_0);
                Emit { channel: channel::ACTIVITY, payload: object(members) }
            },
            MyoEvent::ActivityOutput { turn, tool, output, exit_code, image_url, round } => {
                let members = vec![
                    (owned("turn"), Json::from_u64(turn)),
                    (owned("phase"), Json::text("output")),
                    (owned("tool"), Json::Str(tool)),
                    (owned("output"), Json::from_opt_string(output)),
                    (owned("exit_code"), Json::from_opt_i64(exit_code)),
                    (owned("image_url"), Json::from_opt_string(image_url)),
                    (owned("round"), Json::from_opt_u64(round)),
                ];
                assert(pairs_view(members@) =~= event_payload(e)->Object_0);
                Emit { channel: channel::ACTIVITY, payload: object(members) }
            },
            MyoEvent::ArtifactOpen { turn, title, language } => {
                let members = vec![
                    (owned("turn"), Json::from_u64(turn)),
                    (owned("kind"), Json::text("open")),
                    (owned("title"), Json::from_opt_string(title)),
                    (owned("language"), Json::from_opt_string(language)),
                ];
                assert(pairs_view(members@) =~= event_payload(e)->Object_0);
                Emit { channel: channel::ARTIFACT, payload: object(members) }
            },
            MyoEvent::ArtifactDelta { turn, content } => {
                let members = vec![
                    (owned("turn"), Json::from_u64(turn)),
                    (owned("kind"), Json::text("delta")),
                    (owned("content"), Json::Str(content)),
                ];
                assert(pairs_view(members@) =~= event_payload(e)->Object_0);
                Emit { channel: channel::ARTIFACT, payload: object(members) }
            },
            MyoEvent::ArtifactUpdate { turn, doc_id, title, language, content, version } => {
                let members = vec![
                    (owned("turn"), Json::from_u64(turn)),
                    (owned("kind"), Json::text("update")),
                    (owned("doc_id"), Json::from_opt_string(doc_id)),
                    (owned("title"), Json::from_opt_string(title)),
                    (owned("language"), Json::from_opt_string(language)),
                    (owned("content"), Json::from_opt_string(content)),
                    (owned("version"), Json::from_opt_i64(version)),
                ];
                assert(pairs_view(members@) =~= event_payload(e)->Object_0);
                Emit { channel: channel::ARTIFACT, payload: object(members) }
            },
            MyoEvent::ArtifactSuggestions { turn, doc_id, suggestions } => {
                let members = vec![
                    (owned("turn"), Json::from_u64(turn)),
                    (owned("kind"), Json::text("suggestions")),
                    (owned("doc_id"), Json::from_opt_string(doc_id)),
                    (owned("suggestions"), suggestions),
                ];
                assert(pairs_view(members@) =~= event_payload(e)->Object_0);
                Emit { channel: channel::ARTIFACT, payload: object(members) }
            },
            MyoEvent::Ui { turn, directive, data } => {
                let members = vec![
                    (owned("turn"), Json::from_u64(turn)),
                    (owned("directive"), Json::Str(directive)),
                    (owned("data"), data),
                ];
                assert(pairs_view(members@) =~= event_payload(e)->Object_0);
                Emit { channel: channel::UI, payload: object(members) }
            },
            MyoEvent::Progress { turn, kind, data } => {
                let members = vec![
                    (owned("turn"), Json::from_u64(turn)),
                    (owned("kind"), Json::Str(kind)),
                    (owned("data"), data),
                ];
                assert(pairs_view(members@) =~= event_payload(e)->Object_0);
                Emit { channel: channel::PROGRESS, payload: object(members) }
            },
            MyoEvent::AudioReady { turn, b64, mime } => {
                let members = vec![
                    (owned("turn"), Json::from_u64(turn)),
                    (owned("kind"), Json::text("ready")),
                    (owned("b64"), Json::Str(b64)),
                    (owned("mime"), Json::Str(mime)),
                ];
                assert(pairs_view(members@) =~= event_payload(e)->Object_0);
                Emit { channel: channel::AUDIO, payload: object(members) }
            },
            MyoEvent::AudioSpeak { turn, text } => {
                let members = vec![
                    (owned("turn"), Json::from_u64(turn)),
                    (owned("kind"), Json::text("speak")),
                    (owned("text"), Json::Str(text)),
                ];
                assert(pairs_view(members@) =~= event_payload(e)->Object_0);
                Emit { channel: channel::AUDIO, payload: object(members) }
            },
            MyoEvent::Engine { name, status, detail } => {
                let members = vec![
                    (owned("name"), Json::Str(name)),
                    (owned("status"), Json::Str(status)),
                    (owned("detail"), Json::from_opt_string(detail)),
                ];
                assert(pairs_view(members@) =~= event_payload(e)->Object_0);
                Emit { channel: channel::ENGINE, payload: object(members) }
            },
            MyoEvent::Dream { phase, note } => {
                let members = vec![
                    (owned("phase"), Json::Str(phase)),
                    (owned("note"), Json::from_opt_string(note)),
                ];
                assert(pairs_view(members@) =~= event_payload(e)->Object_0);
                Emit { channel: channel::DREAM, payload: object(members) }
            },
        }
    }
}

proof fn lemma_second_member(m: Seq<(Seq<char>, JsonV)>)
    requires
        m.len() >= 2,
        m[0].0 == "turn"@,
        m[1].0 == "kind"@,
    ensures
        crate::json::member(m, "kind"@) == Some(m[1].1),
{
    reveal_strlit("turn");
    reveal_strlit("kind");
    assert("turn"@[0] == 't' && "kind"@[0] == 'k');
    assert(m[0].0 != "kind"@);
    assert(m.drop_first()[0] == m[1]);
    assert(crate::json::member(m.drop_first(), "kind"@) == Some(m[1].1));
    assert(crate::json::member(m, "kind"@) == crate::json::member(m.drop_first(), "kind"@));
}

/// A payload says which of its channel's events it is: the answer's delta
/// and done, a transcript's partial and final, and the audio's ready and
/// speak carry different `kind`s, so a final transcript is never read as a
/// partial one.
pub proof fn law_payload_kind_tells_events_apart(e: MyoEvent)
    ensures
        e matches MyoEvent::TranscriptFinal { .. } ==> event_payload(e).str_member("kind"@) == Some("final"@),
        e matches MyoEvent::TranscriptPartial { .. } ==> event_payload(e).str_member("kind"@) == Some("partial"@),
        e matches MyoEvent::AssistantDelta { .. } ==> event_payload(e).str_member("kind"@) == Some("delta"@),
        e matches MyoEvent::AssistantDone { .. } ==> event_payload(e).str_member("kind"@) == Some("done"@),
        e matches MyoEvent::AudioReady { .. } ==> event_payload(e).str_member("kind"@) == Some("ready"@),
        e matches MyoEvent::AudioSpeak { .. } ==> event_payload(e).str_member("kind"@) == Some("speak"@),
{
    match e {
        MyoEvent::TranscriptPartial { .. } | MyoEvent::TranscriptFinal { .. } | MyoEvent::AssistantDelta { .. }
        | MyoEvent::AssistantDone { .. } | MyoEvent::AudioReady { .. } | MyoEvent::AudioSpeak { .. } => {
            lemma_second_member(event_payload(e)->Object_0);
        },
        _ => {},
    }
}

/// Two transcript events of different kinds never share a payload `kind`.
pub proof fn law_final_and_partial_differ(a: MyoEvent, b: MyoEvent)
    requires
        a matches MyoEvent::TranscriptFinal { .. },
        b matches MyoEvent::TranscriptPartial { .. },
    ensures
        event_payload(a).str_member("kind"@) != event_payload(b).str_member("kind"@),
        event_channel(a) == event_channel(b),
{
    law_payload_kind_tells_events_apart(a);
    law_payload_kind_tells_events_apart(b);
    reveal_strlit("final");
    reveal_strlit("partial");
    assert("final"@.len() == 5 && "partial"@.len() == 7);
    assert("final"@ != "partial"@);
}

} // verus!
