//! The `shell` tool's logic: reading its arguments, the command line it
//! runs, how much of a stream's output is kept, and the text the model reads
//! back. Spawning the child and draining its pipes happen at the edge.

use vstd::prelude::*;
use vstd::string::StringExecFns;

use crate::json::{Json, JsonV};
use crate::text::{chars_of, dec_digits, owned, trim, trim_bounds};
use crate::tools::ToolKind;

verus! {

/// Hard cap on captured output bytes per stream.
pub const MAX_OUTPUT_BYTES: usize = 262144;

/// Default per-command budget: ten minutes.
pub const DEFAULT_TIMEOUT_MS: u64 = 600000;

/// Ceiling on a per-call timeout: an hour.
pub const MAX_TIMEOUT_MS: u64 = 3600000;

/// The `shell` tool: run a command on the user's machine.
pub struct ShellTool;

impl ShellTool {
    pub fn kind(&self) -> (r: ToolKind)
        ensures
            r == ToolKind::Shell,
    {
        ToolKind::Shell
    }
}

/// A `shell` call's arguments, read and bounded.
#[derive(Debug, Clone, PartialEq)]
pub struct ShellArgs {
    pub command: String,
    pub cwd: Option<String>,
    pub timeout_ms: u64,
}

/// `timeout_ms` clamped to `[1, MAX_TIMEOUT_MS]`, ten minutes by default.
pub open spec fn timeout_of(args: JsonV) -> u64 {
    let t = match crate::sse::normalize::field_u64(args, "timeout_ms"@) {
        Some(t) => t,
        None => DEFAULT_TIMEOUT_MS,
    };
    if t < 1 {
        1
    } else if t > MAX_TIMEOUT_MS {
        MAX_TIMEOUT_MS
    } else {
        t
    }
}

/// Read a `shell` call: `command` must be a string with something besides
/// white space; an empty `cwd` counts as none.
pub fn shell_args(args: &Json) -> (r: Result<ShellArgs, String>)
    ensures
        match args@.str_member("command"@) {
            None => r matches Err(e) && e@ == "shell requires a 'command' string"@,
            Some(c) => if trim(c).len() == 0 {
                r matches Err(e) && e@ == "command must be non-empty"@
            } else {
                r matches Ok(a) && a.command@ == c && a.timeout_ms == timeout_of(args@)
                    && match args@.str_member("cwd"@) {
                    Some(d) => if d.len() > 0 {
                        a.cwd matches Some(x) && x@ == d
                    } else {
                        a.cwd is None
                    },
                    None => a.cwd is None,
                }
            },
        },
{
    let command = match args.get_str("command") {
        Some(c) => c,
        None => return Err(owned("shell requires a 'command' string")),
    };
    let cs = chars_of(command);
    let (b, e) = trim_bounds(&cs);
    if b >= e {
        assert(cs@.subrange(b as int, e as int).len() == 0);
        return Err(owned("command must be non-empty"));
    }
    let cwd = match args.get_str("cwd") {
        Some(d) => if !d.is_empty() {
            Some(owned(d))
        } else {
            None
        },
        None => None,
    };
    let t = match args.get("timeout_ms") {
        Some(x) => match x.as_u64() {
            Some(t) => t,
            None => DEFAULT_TIMEOUT_MS,
        },
        None => DEFAULT_TIMEOUT_MS,
    };
    let timeout_ms = if t < 1 {
        1
    } else if t > MAX_TIMEOUT_MS {
        MAX_TIMEOUT_MS
    } else {
        t
    };
    Ok(ShellArgs { command: owned(command), cwd, timeout_ms })
}

/// The program and arguments that run `command`: `cmd /C` on Windows,
/// `sh -c` elsewhere.
pub fn shell_command(command: &str, windows: bool) -> (r: (String, Vec<String>))
    ensures
        r.0@ == (if windows { "cmd"@ } else { "sh"@ }),
        r.1@.len() == 2,
        r.1@[0]@ == (if windows { "/C"@ } else { "-c"@ }),
        r.1@[1]@ == command@,
{
    if windows {
        (owned("cmd"), vec![owned("/C"), owned(command)])
    } else {
        (owned("sh"), vec![owned("-c"), owned(command)])
    }
}

/// Of a chunk of `n` bytes read while `buffered` are kept, how many to keep
/// and whether output is now clipped: keep up to the cap, stream the rest.
pub fn capture_take(buffered: usize, n: usize) -> (r: (usize, bool))
    ensures
        ({
            let remaining = if buffered >= MAX_OUTPUT_BYTES { 0 } else { MAX_OUTPUT_BYTES - buffered };
            &&& r.0 == if n < remaining { n as int } else { remaining }
            &&& r.1 == (remaining == 0 || n > remaining)
        }),
{
    let remaining = MAX_OUTPUT_BYTES.saturating_sub(buffered);
    if remaining == 0 {
        return (0, true);
    }
    let take = if n < remaining {
        n
    } else {
        remaining
    };
    (take, take < n)
}

/// The bytes of a stream kept for the model: everything up to the cap.
pub open spec fn kept(all: Seq<u8>) -> Seq<u8> {
    if all.len() <= MAX_OUTPUT_BYTES {
        all
    } else {
        all.subrange(0, MAX_OUTPUT_BYTES as int)
    }
}

/// One output stream of a running command: every chunk is streamed live as
/// progress, and the first [`MAX_OUTPUT_BYTES`] are kept for the result.
pub struct StreamCapture {
    buf: Vec<u8>,
    truncated: bool,
    seen: Ghost<Seq<u8>>,
}

impl StreamCapture {
    /// Everything the stream delivered so far.
    pub closed spec fn received(&self) -> Seq<u8> {
        self.seen@
    }

    pub closed spec fn wf(&self) -> bool {
        &&& self.buf@ == kept(self.seen@)
        &&& self.truncated == (self.seen@.len() > MAX_OUTPUT_BYTES)
    }

    pub fn new() -> (c: Self)
        ensures
            c.wf(),
            c.received() == Seq::<u8>::empty(),
    {
        StreamCapture { buf: Vec::new(), truncated: false, seen: Ghost(Seq::empty()) }
    }

    /// Take in one chunk read from the stream: keep what fits under the cap,
    /// and return the progress event that streams the chunk live.
    pub fn absorb(&mut self, chunk: &[u8], tool: &str, turn: u64, round: u64) -> (r: crate::event::MyoEvent)
        requires
            old(self).wf(),
        ensures
            final(self).wf(),
            final(self).received() == old(self).received() + chunk@,
            r@ == (crate::event::MyoEventV::ActivityProgress {
                turn: turn,
                tool: tool@,
                progress: Some(crate::sse::utf8_lossy(chunk@)),
                round: Some(round),
            }),
    {
        let ghost before = self.seen@;
        let (take, clipped) = capture_take(self.buf.len(), chunk.len());
        let mut i: usize = 0;
        let ghost b0 = self.buf@;
        while i < take
            invariant
                i <= take,
                take <= chunk@.len(),
                self.buf@ == b0 + chunk@.subrange(0, i as int),
                self.truncated == old(self).truncated,
                self.seen == old(self).seen,
            decreases take - i,
        {
            self.buf.push(chunk[i]);
            assert(chunk@.subrange(0, i + 1) =~= chunk@.subrange(0, i as int).push(chunk@[i as int]));
            i = i + 1;
        }
        if clipped && chunk.len() > 0 {
            self.truncated = true;
        }
        self.seen = Ghost(before + chunk@);
        proof {
            let all = before + chunk@;
            assert(all.len() == before.len() + chunk@.len());
            if before.len() >= MAX_OUTPUT_BYTES {
                assert(b0.len() == MAX_OUTPUT_BYTES);
                assert(take == 0);
            } else {
                assert(b0 == before);
            }
            assert(self.truncated == (all.len() > MAX_OUTPUT_BYTES));
            if before.len() >= MAX_OUTPUT_BYTES {
                assert(all.subrange(0, MAX_OUTPUT_BYTES as int) =~= before.subrange(0, MAX_OUTPUT_BYTES as int));
                assert(self.buf@ =~= kept(all));
            } else if all.len() <= MAX_OUTPUT_BYTES {
                assert(self.buf@ =~= all);
            } else {
                assert(self.buf@ =~= all.subrange(0, MAX_OUTPUT_BYTES as int));
            }
        }
        let text = crate::sse::decode_lossy(chunk);
        crate::event::MyoEvent::ActivityProgress { turn, tool: owned(tool), progress: Some(text), round: Some(round) }
    }

    /// The kept text (invalid UTF-8 replaced) and whether output was clipped.
    pub fn finish(&self) -> (r: (String, bool))
        requires
            self.wf(),
        ensures
            r.0@ == crate::sse::utf8_lossy(kept(self.received())),
            r.1 == (self.received().len() > MAX_OUTPUT_BYTES),
    {
        (crate::sse::decode_lossy(self.buf.as_slice()), self.truncated)
    }
}

/// The status line of a run.
pub open spec fn status_line(exit_code: Option<i64>, timed_out: bool) -> Seq<char> {
    if timed_out {
        "Command timed out and was killed before it exited.\n"@
    } else {
        match exit_code {
            Some(c) => "Exit code: "@ + crate::text::int_text(c as int) + "\n"@,
            None => "Command exited without a status code.\n"@,
        }
    }
}

/// One captured stream's section: omitted when only white space.
pub open spec fn stream_section(label: Seq<char>, text: Seq<char>, truncated: bool) -> Seq<char> {
    if trim(text).len() == 0 {
        seq![]
    } else {
        "\n["@ + label + "]\n"@ + text + (if truncated {
            "\n…("@ + label + " truncated)"@
        } else {
            seq![]
        }) + "\n"@
    }
}

/// The text the model reads back from a run: the status line, the stdout
/// and stderr sections, and a note when there was no output at all.
pub open spec fn rendered(exit_code: Option<i64>, timed_out: bool, stdout: Seq<char>, stdout_trunc: bool, stderr: Seq<char>, stderr_trunc: bool) -> Seq<char> {
    status_line(exit_code, timed_out) + stream_section("stdout"@, stdout, stdout_trunc) + stream_section(
        "stderr"@,
        stderr,
        stderr_trunc,
    ) + if trim(stdout).len() == 0 && trim(stderr).len() == 0 && !timed_out {
        "\n(no output)\n"@
    } else {
        seq![]
    }
}

fn blank(s: &str) -> (r: bool)
    ensures
        r == (trim(s@).len() == 0),
{
    let cs = chars_of(s);
    let (b, e) = trim_bounds(&cs);
    assert(cs@.subrange(b as int, e as int).len() == e - b);
    b >= e
}

fn section(out: &mut String, label: &str, text: &str, truncated: bool)
    ensures
        final(out)@ == old(out)@ + stream_section(label@, text@, truncated),
{
    if blank(text) {
        assert(old(out)@ + Seq::<char>::empty() =~= old(out)@);
        return;
    }
    let ghost start = out@;
    out.append("\n[");
    out.append(label);
    out.append("]\n");
    out.append(text);
    if truncated {
        out.append("\n…(");
        out.append(label);
        out.append(" truncated)");
    }
    out.append("\n");
    assert(out@ =~= start + stream_section(label@, text@, truncated));
}

/// Shape a captured run into the text the model reads back.
pub fn render_result(exit_code: Option<i64>, timed_out: bool, stdout: &str, stdout_trunc: bool, stderr: &str, stderr_trunc: bool) -> (r: String)
    ensures
        r@ == rendered(exit_code, timed_out, stdout@, stdout_trunc, stderr@, stderr_trunc),
{
    let mut out = String::new();
    if timed_out {
        out.append("Command timed out and was killed before it exited.\n");
    } else {
        match exit_code {
            Some(c) => {
                out.append("Exit code: ");
                let t = crate::text::int_string(c);
                out.append(t.as_str());
                out.append("\n");
            },
            None => out.append("Command exited without a status code.\n"),
        }
    }
    assert(out@ =~= status_line(exit_code, timed_out));
    section(&mut out, "stdout", stdout, stdout_trunc);
    section(&mut out, "stderr", stderr, stderr_trunc);
    if blank(stdout) && blank(stderr) && !timed_out {
        out.append("\n(no output)\n");
    } else {
        assert(out@ + Seq::<char>::empty() =~= out@);
    }
    out
}

} // verus!
