//! The `read_file` / `write_file` tools' logic: reading their arguments,
//! the read budget, and the text the model reads back. Touching the file
//! system happens at the edge.

use vstd::prelude::*;
use vstd::string::{StringExecFns, StringSliceAdditionalSpecFns};

use crate::json::{Json, JsonV};
use crate::sse::{decode_lossy, utf8_lossy};
use crate::text::{dec_digits, decimal, owned};
use crate::tools::ToolKind;
use crate::update::bool_or;

verus! {

/// Default read budget: 1 MiB.
pub const DEFAULT_READ_BYTES: u64 = 1048576;

/// Ceiling on a single read: 16 MiB.
pub const MAX_READ_BYTES: u64 = 16777216;

/// The `read_file` tool.
pub struct ReadFileTool;

/// The `write_file` tool.
pub struct WriteFileTool;

impl ReadFileTool {
    pub fn kind(&self) -> (r: ToolKind)
        ensures
            r == ToolKind::ReadFile,
    {
        ToolKind::ReadFile
    }
}

impl WriteFileTool {
    pub fn kind(&self) -> (r: ToolKind)
        ensures
            r == ToolKind::WriteFile,
    {
        ToolKind::WriteFile
    }
}

/// The read budget: `max_bytes` (1 MiB by default) capped at 16 MiB.
pub open spec fn read_cap(args: JsonV) -> u64 {
    let m = match crate::sse::normalize::field_u64(args, "max_bytes"@) {
        Some(m) => m,
        None => DEFAULT_READ_BYTES,
    };
    if m < MAX_READ_BYTES {
        m
    } else {
        MAX_READ_BYTES
    }
}

/// Read a `read_file` call: its path and byte budget.
pub fn read_args(args: &Json) -> (r: Result<(String, u64), String>)
    ensures
        match args@.str_member("path"@) {
            None => r matches Err(e) && e@ == "read_file requires a 'path' string"@,
            Some(p) => if read_cap(args@) == 0 {
                r matches Err(e) && e@ == "max_bytes must be > 0"@
            } else {
                r matches Ok((q, c)) && q@ == p && c == read_cap(args@)
            },
        },
{
    let path = match args.get_str("path") {
        Some(p) => owned(p),
        None => return Err(owned("read_file requires a 'path' string")),
    };
    let m = match args.get("max_bytes") {
        Some(x) => match x.as_u64() {
            Some(m) => m,
            None => DEFAULT_READ_BYTES,
        },
        None => DEFAULT_READ_BYTES,
    };
    let cap = if m < MAX_READ_BYTES {
        m
    } else {
        MAX_READ_BYTES
    };
    if cap == 0 {
        return Err(owned("max_bytes must be > 0"));
    }
    Ok((path, cap))
}

/// What a read returns: the first `cap` bytes as text (invalid UTF-8
/// replaced), and when the file was longer, a note of how much was returned
/// out of its total size (`unknown` when the size could not be read).
pub open spec fn read_text(bytes: Seq<u8>, cap: u64, total: Option<u64>) -> Seq<char> {
    if bytes.len() > cap {
        utf8_lossy(bytes.subrange(0, cap as int)) + "\n…(truncated: returned "@ + dec_digits(cap as nat)
            + " of "@ + match total {
            Some(t) => dec_digits(t as nat),
            None => "unknown"@,
        } + " bytes)"@
    } else {
        utf8_lossy(bytes)
    }
}

/// Shape a read into the text the model reads back.
pub fn read_result(bytes: &[u8], cap: u64, total: Option<u64>) -> (r: String)
    ensures
        r@ == read_text(bytes@, cap, total),
{
    if (bytes.len() as u64) > cap {
        let n = cap as usize;
        let mut text = decode_lossy(&bytes[0..n]);
        text.append("\n…(truncated: returned ");
        text.append(decimal(cap).as_str());
        text.append(" of ");
        match total {
            Some(t) => text.append(decimal(t).as_str()),
            None => text.append("unknown"),
        }
        text.append(" bytes)");
        text
    } else {
        decode_lossy(bytes)
    }
}

/// A `write_file` call's arguments.
#[derive(Debug, Clone, PartialEq)]
pub struct WriteArgs {
    pub path: String,
    pub content: String,
    /// Create missing parent directories (on by default).
    pub create_dirs: bool,
    /// Append instead of overwriting (off by default).
    pub append: bool,
}

/// Read a `write_file` call.
pub fn write_args(args: &Json) -> (r: Result<WriteArgs, String>)
    ensures
        match (args@.str_member("path"@), args@.str_member("content"@)) {
            (None, _) => r matches Err(e) && e@ == "write_file requires a 'path' string"@,
            (Some(_), None) => r matches Err(e) && e@ == "write_file requires a 'content' string"@,
            (Some(p), Some(c)) => r matches Ok(w) && w.path@ == p && w.content@ == c
                && w.create_dirs == bool_or(args@, "create_dirs"@, true) && w.append == bool_or(args@, "append"@, false),
        },
{
    let path = match args.get_str("path") {
        Some(p) => owned(p),
        None => return Err(owned("write_file requires a 'path' string")),
    };
    let content = match args.get_str("content") {
        Some(c) => owned(c),
        None => return Err(owned("write_file requires a 'content' string")),
    };
    let create_dirs = match args.get("create_dirs") {
        Some(x) => match x.as_bool() {
            Some(b) => b,
            None => true,
        },
        None => true,
    };
    let append = match args.get("append") {
        Some(x) => match x.as_bool() {
            Some(b) => b,
            None => false,
        },
        None => false,
    };
    Ok(WriteArgs { path, content, create_dirs, append })
}

/// The report of a write: `Wrote`/`Appended` `<n>` bytes to the path, with a
/// note when parent directories were created.
pub open spec fn write_report(append: bool, n: nat, path: Seq<char>, created_dirs: bool) -> Seq<char> {
    (if append { "Appended "@ } else { "Wrote "@ }) + dec_digits(n) + " bytes to "@ + path + (if created_dirs {
        " (created parent directories)"@
    } else {
        seq![]
    }) + "."@
}

/// Shape a write into the text the model reads back; `n` is how many bytes
/// were written.
pub fn write_result(append: bool, n: u64, path: &str, created_dirs: bool) -> (r: String)
    ensures
        r@ == write_report(append, n as nat, path@, created_dirs),
{
    let mut s = owned(if append { "Appended " } else { "Wrote " });
    s.append(decimal(n).as_str());
    s.append(" bytes to ");
    s.append(path);
    if created_dirs {
        s.append(" (created parent directories)");
    }
    s.append(".");
    s
}

} // verus!
