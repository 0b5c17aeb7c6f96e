# myo

The agent core of Myo, a voice-first local AI companion, as a Verus-verified
library, plus the `myo` command-line binary around it.

`src/` holds the logic, each function with a contract Verus proves:

- `sse`, `event`, `brain` — the server-sent-events decoder, the normalized
  `myo://` event stream and the brain's wire protocol;
- `llm`, `converse`, `tools` — streamed chat decoding and tool-call
  reassembly, the native turn loop, the tool kit gated by the capability
  toggles, and each tool's argument reading and result text;
- `capabilities`, `config`, `shell` — the toggles, the persisted settings and
  the desktop shell's persona and idle decisions;
- `memory` — working memory, dream-mode steps and memory capture;
- `engine`, `supervisor`, `speech`, `progress` — the pinned engine and the
  healing of a stale one, launch recipes and tokens, speech requests and
  replies, and the engine-progress poller;
- `update`, `time`, `paths`, `cli` — the self-updater's decisions (releases,
  policies, assets, checksums, staged updates), timestamps, state paths and
  the command line;
- `json`, `text` — the JSON value model and the text helpers under them.

Laws relating several functions are public proof functions named `law_*`.

`app/main.rs` is the binary: it reads and writes files, talks to the network
and swaps the installed executable, asking the library for every decision.
