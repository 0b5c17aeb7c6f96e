//! The `myo://` event channels: stable names the frontend listens on. The
//! per-turn grouping rides in each payload's `turn` field, not the channel.

use vstd::prelude::*;

verus! {

/// Assistant text stream (→ TTS). Payload `{turn, kind: "delta"|"done", text?}`.
pub const ASSISTANT: &'static str = "myo://assistant";

/// ASR transcript. Payload `{turn, kind: "partial"|"final", text, speaker?}`.
pub const TRANSCRIPT: &'static str = "myo://transcript";

/// Tool activity feed. Payload `{turn, phase: "start"|"progress"|"output", tool, …}`.
pub const ACTIVITY: &'static str = "myo://activity";

/// Editable document artifact. Payload `{turn, kind: "open"|"delta"|"update"|"suggestions", …}`.
pub const ARTIFACT: &'static str = "myo://artifact";

/// Agent-driven UI directive. Payload `{turn, directive, data}`.
pub const UI: &'static str = "myo://ui";

/// Thinking/progress + ancillary metadata. Payload `{turn, kind, data}`.
pub const PROGRESS: &'static str = "myo://progress";

/// Synthesized speech, ready to play. Payload `{turn, kind: "ready", b64, mime}`.
pub const AUDIO: &'static str = "myo://audio";

/// Engine lifecycle (no turn). Payload `{name, status, detail?}`.
pub const ENGINE: &'static str = "myo://engine";

/// Dream-mode memory consolidation (no turn). Payload `{phase, note?}`.
pub const DREAM: &'static str = "myo://dream";

} // verus!
