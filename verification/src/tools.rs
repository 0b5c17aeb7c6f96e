//! Myo's native tool kit — what the agent can actually do — as far as it is
//! logic: which tools a capability set offers, their schemas and headlines,
//! reading their arguments and shaping their results. Running a command,
//! touching a file or fetching a page happens at the edge.

pub mod web;
pub mod shell;
pub mod files;
pub mod memory;

use vstd::prelude::*;
use vstd::string::StringExecFns;

use crate::capabilities::Capabilities;
use crate::event::pairs_view;
use crate::json::{Json, JsonV};
use crate::text::{eq_str, owned};

verus! {

/// Which capability toggle a tool belongs to.
#[derive(Debug, Clone, Copy, PartialEq, Eq, Structural)]
pub enum Category {
    Web,
    Files,
    Code,
}

/// Is `c`'s toggle on in `caps`?
pub open spec fn category_on(c: Category, caps: Capabilities) -> bool {
    match c {
        Category::Web => caps.web,
        Category::Files => caps.files,
        Category::Code => caps.code,
    }
}

impl Category {
    /// Is this category's toggle on in `caps`?
    pub fn enabled(self, caps: Capabilities) -> (r: bool)
        ensures
            r == category_on(self, caps),
    {
        match self {
            Category::Web => caps.web,
            Category::Files => caps.files,
            Category::Code => caps.code,
        }
    }
}

/// What a tool hands back to the model: the text it reads, and an exit code
/// for the activity pill.
#[derive(Debug, Clone, PartialEq)]
pub struct ToolResult {
    pub text: String,
    pub exit_code: Option<i64>,
}

impl ToolResult {
    /// A result that is only text.
    pub fn text(text: &str) -> (r: ToolResult)
        ensures
            r.text@ == text@,
            r.exit_code is None,
    {
        ToolResult { text: owned(text), exit_code: None }
    }
}

/// The tools of the kit.
#[derive(Debug, Clone, Copy, PartialEq, Eq, Structural)]
pub enum ToolKind {
    Shell,
    ReadFile,
    WriteFile,
    WebSearch,
}

/// The function name the model calls.
pub open spec fn tool_name(t: ToolKind) -> Seq<char> {
    match t {
        ToolKind::Shell => "shell"@,
        ToolKind::ReadFile => "read_file"@,
        ToolKind::WriteFile => "write_file"@,
        ToolKind::WebSearch => "web_search"@,
    }
}

/// The toggle that gates a tool.
pub open spec fn tool_category(t: ToolKind) -> Category {
    match t {
        ToolKind::Shell => Category::Code,
        ToolKind::ReadFile => Category::Files,
        ToolKind::WriteFile => Category::Files,
        ToolKind::WebSearch => Category::Web,
    }
}

/// The argument a tool's activity pill shows as its headline.
pub open spec fn headline_key(t: ToolKind) -> Seq<char> {
    match t {
        ToolKind::Shell => "command"@,
        ToolKind::ReadFile => "path"@,
        ToolKind::WriteFile => "path"@,
        ToolKind::WebSearch => "query"@,
    }
}

impl ToolKind {
    pub fn name(&self) -> (r: &'static str)
        ensures
            r@ == tool_name(*self),
    {
        match self {
            ToolKind::Shell => "shell",
            ToolKind::ReadFile => "read_file",
            ToolKind::WriteFile => "write_file",
            ToolKind::WebSearch => "web_search",
        }
    }

    pub fn category(&self) -> (r: Category)
        ensures
            r == tool_category(*self),
    {
        match self {
            ToolKind::Shell => Category::Code,
            ToolKind::ReadFile => Category::Files,
            ToolKind::WriteFile => Category::Files,
            ToolKind::WebSearch => Category::Web,
        }
    }

    /// A short headline for the activity pill: the shell command, the file
    /// path, the search query — when the arguments carry it as a string.
    pub fn headline(&self, args: &Json) -> (r: Option<String>)
        ensures
            crate::json::opt_view(r) == args@.str_member(headline_key(*self)),
    {
        let key = match self {
            ToolKind::Shell => "command",
            ToolKind::ReadFile => "path",
            ToolKind::WriteFile => "path",
            ToolKind::WebSearch => "query",
        };
        match args.get_str(key) {
            Some(s) => Some(owned(s)),
            None => None,
        }
    }
}

/// Every tool, in the order they are advertised.
pub open spec fn all_tools() -> Seq<ToolKind> {
    seq![ToolKind::Shell, ToolKind::ReadFile, ToolKind::WriteFile, ToolKind::WebSearch]
}

/// The tools of `s` whose category is on in `caps`, in order.
pub open spec fn enabled_of(s: Seq<ToolKind>, caps: Capabilities) -> Seq<ToolKind>
    decreases s.len(),
{
    if s.len() == 0 {
        seq![]
    } else {
        enabled_of(s.drop_last(), caps) + if category_on(tool_category(s.last()), caps) {
            seq![s.last()]
        } else {
            seq![]
        }
    }
}

/// The kit for `caps`: the tools whose category is on, in order.
pub open spec fn kit(caps: Capabilities) -> Seq<ToolKind> {
    enabled_of(all_tools(), caps)
}

proof fn lemma_enabled_of(s: Seq<ToolKind>, caps: Capabilities, t: ToolKind)
    requires
        enabled_of(s, caps).contains(t),
    ensures
        category_on(tool_category(t), caps),
    decreases s.len(),
{
    if s.len() > 0 {
        let front = enabled_of(s.drop_last(), caps);
        let k = choose|k: int| 0 <= k < enabled_of(s, caps).len() && enabled_of(s, caps)[k] == t;
        if k < front.len() {
            assert(front[k] == t);
            lemma_enabled_of(s.drop_last(), caps, t);
        }
    }
}

/// Build the tool kit for the given capabilities — only the tools whose
/// category is on, in advertising order.
pub fn registry(caps: Capabilities) -> (r: Vec<ToolKind>)
    ensures
        r@ == kit(caps),
{
    let all = vec![ToolKind::Shell, ToolKind::ReadFile, ToolKind::WriteFile, ToolKind::WebSearch];
    assert(all@ == all_tools());
    let mut out: Vec<ToolKind> = Vec::new();
    let mut i: usize = 0;
    while i < all.len()
        invariant
            all@ == all_tools(),
            i <= all@.len(),
            out@ == enabled_of(all@.subrange(0, i as int), caps),
        decreases all@.len() - i,
    {
        let t = all[i];
        proof {
            assert(all@.subrange(0, i + 1).drop_last() =~= all@.subrange(0, i as int));
            assert(all@.subrange(0, i + 1).last() == t);
        }
        let ghost before = out@;
        if t.category().enabled(caps) {
            out.push(t);
            assert(out@ =~= before + seq![t]);
        } else {
            assert(out@ =~= before + Seq::<ToolKind>::empty());
        }
        i = i + 1;
    }
    assert(all@.subrange(0, all@.len() as int) =~= all@);
    out
}

/// The first tool of `tools` named `name`.
pub open spec fn find_named(tools: Seq<ToolKind>, name: Seq<char>) -> Option<ToolKind>
    decreases tools.len(),
{
    if tools.len() == 0 {
        None
    } else if tool_name(tools[0]) == name {
        Some(tools[0])
    } else {
        find_named(tools.drop_first(), name)
    }
}

/// Find a tool by name in a built kit — the runtime gate backstop: a
/// disabled or unknown name finds nothing, and the loop refuses the call.
pub fn find(tools: &[ToolKind], name: &str) -> (r: Option<ToolKind>)
    ensures
        r == find_named(tools@, name@),
{
    let mut i: usize = 0;
    assert(tools@.subrange(0, tools@.len() as int) =~= tools@);
    while i < tools.len()
        invariant
            i <= tools@.len(),
            find_named(tools@, name@) == find_named(tools@.subrange(i as int, tools@.len() as int), name@),
        decreases tools@.len() - i,
    {
        let ghost rest = tools@.subrange(i as int, tools@.len() as int);
        assert(rest.drop_first() =~= tools@.subrange(i + 1, tools@.len() as int));
        if eq_str(tools[i].name(), name) {
            return Some(tools[i]);
        }
        i = i + 1;
    }
    None
}

/// A disabled tool is never found: whatever the model names, the kit for
/// `caps` only holds tools whose toggle is on.
pub proof fn law_find_respects_toggles(caps: Capabilities, name: Seq<char>)
    ensures
        find_named(kit(caps), name) matches Some(t) ==> category_on(tool_category(t), caps) && tool_name(t) == name,
{
    lemma_find_named_in(kit(caps), name);
    if let Some(t) = find_named(kit(caps), name) {
        let k = choose|k: int| 0 <= k < kit(caps).len() && kit(caps)[k] == t;
        assert(kit(caps).contains(t));
        lemma_enabled_of(all_tools(), caps, t);
    }
}

/// A tool whose toggle is off is never found in the kit, so a call to it is
/// refused rather than run.
pub proof fn law_disabled_tool_is_never_found(caps: Capabilities, t: ToolKind)
    requires
        !category_on(tool_category(t), caps),
    ensures
        find_named(kit(caps), tool_name(t)) is None,
{
    law_find_respects_toggles(caps, tool_name(t));
    if let Some(u) = find_named(kit(caps), tool_name(t)) {
        lemma_tool_names_differ(u, t);
    }
}

proof fn lemma_tool_names_differ(a: ToolKind, b: ToolKind)
    requires
        tool_name(a) == tool_name(b),
    ensures
        a == b,
{
    reveal_strlit("shell");
    reveal_strlit("read_file");
    reveal_strlit("write_file");
    reveal_strlit("web_search");
    assert("shell"@[0] == 's');
    assert("read_file"@[0] == 'r');
    assert("write_file"@[0] == 'w' && "write_file"@[1] == 'r');
    assert("web_search"@[0] == 'w' && "web_search"@[1] == 'e');
    if a != b {
        assert(tool_name(a)[0] != tool_name(b)[0] || tool_name(a)[1] != tool_name(b)[1]);
    }
}

proof fn lemma_find_named_in(tools: Seq<ToolKind>, name: Seq<char>)
    ensures
        find_named(tools, name) matches Some(t) ==> tool_name(t) == name && exists|k: int| 0 <= k < tools.len() && tools[k] == t,
    decreases tools.len(),
{
    if tools.len() > 0 && tool_name(tools[0]) != name {
        lemma_find_named_in(tools.drop_first(), name);
        if let Some(t) = find_named(tools, name) {
            let k = choose|k: int| 0 <= k < tools.drop_first().len() && tools.drop_first()[k] == t;
            assert(tools[k + 1] == t);
        }
    }
}

// ---------------------------------------------------------------------------
// Schemas.
// ---------------------------------------------------------------------------

/// An OpenAI function tool: `{type: "function", function: {name,
/// description, parameters: {type: "object", properties, required}}}`.
pub open spec fn function_tool(name: Seq<char>, desc: Seq<char>, props: Seq<(Seq<char>, JsonV)>, required: Seq<Seq<char>>) -> JsonV {
    JsonV::Object(seq![
        ("type"@, JsonV::Str("function"@)),
        ("function"@, JsonV::Object(seq![
            ("name"@, JsonV::Str(name)),
            ("description"@, JsonV::Str(desc)),
            ("parameters"@, JsonV::Object(seq![
                ("type"@, JsonV::Str("object"@)),
                ("properties"@, JsonV::Object(props)),
                ("required"@, JsonV::Array(Seq::new(required.len(), |i: int| JsonV::Str(required[i])))),
            ])),
        ])),
    ])
}

/// A named parameter `{type, description}`.
pub open spec fn prop(name: Seq<char>, ty: Seq<char>, desc: Seq<char>) -> (Seq<char>, JsonV) {
    (name, JsonV::Object(seq![("type"@, JsonV::Str(ty)), ("description"@, JsonV::Str(desc))]))
}

/// The shell the `shell` tool runs through, as its schema names it.
pub open spec fn shell_name(windows: bool) -> Seq<char> {
    if windows { "cmd /C"@ } else { "sh -c"@ }
}

/// The schema advertised for a tool (`windows` says which shell runs
/// commands).
pub open spec fn tool_schema(t: ToolKind, windows: bool) -> JsonV {
    match t {
        ToolKind::Shell => function_tool(
            "shell"@,
            "Run a shell command on the user's machine (via "@ + shell_name(windows) + ") and return its stdout, stderr, and exit code. Use it to list files, run programs, use git, install packages, or carry out any system task. Output streams live, so long-running commands are fine."@,
            seq![
                prop("command"@, "string"@, "The command line to run."@),
                prop("cwd"@, "string"@, "Optional working directory to run in."@),
                prop("timeout_ms"@, "integer"@, "Optional wall-clock timeout in milliseconds (default 600000, max 3600000)."@),
            ],
            seq!["command"@],
        ),
        ToolKind::ReadFile => function_tool(
            "read_file"@,
            "Read a text file from the user's machine and return its contents (UTF-8, lossy). Large files are truncated to a byte budget."@,
            seq![
                prop("path"@, "string"@, "Absolute or relative path to read."@),
                prop("max_bytes"@, "integer"@, "Optional max bytes to return (default 1048576, max 16777216)."@),
            ],
            seq!["path"@],
        ),
        ToolKind::WriteFile => function_tool(
            "write_file"@,
            "Write text to a file on the user's machine. Creates parent directories by default. Set append to add to the end instead of overwriting."@,
            seq![
                prop("path"@, "string"@, "Path to write."@),
                prop("content"@, "string"@, "The text to write."@),
                prop("create_dirs"@, "boolean"@, "Create missing parent directories (default true)."@),
                prop("append"@, "boolean"@, "Append instead of overwriting (default false)."@),
            ],
            seq!["path"@, "content"@],
        ),
        ToolKind::WebSearch => function_tool(
            "web_search"@,
            "Search the web and get back a list of results (title, URL, and a snippet). Use it to look up current facts, find pages, or gather sources before answering."@,
            seq![
                prop("query"@, "string"@, "The search query."@),
                prop("limit"@, "integer"@, "Max results to return (default 5)."@),
            ],
            seq!["query"@],
        ),
    }
}

pub(crate) fn prop_json(name: &str, ty: &str, desc: &str) -> (r: (String, Json))
    ensures
        r.0@ == prop(name@, ty@, desc@).0,
        r.1@ == prop(name@, ty@, desc@).1,
{
    let m = vec![(owned("type"), Json::text(ty)), (owned("description"), Json::text(desc))];
    assert(pairs_view(m@) =~= seq![("type"@, JsonV::Str(ty@)), ("description"@, JsonV::Str(desc@))]);
    (owned(name), crate::event::object(m))
}

pub(crate) fn function_json(name: &str, desc: &str, props: Vec<(String, Json)>, required: Vec<&str>) -> (r: Json)
    ensures
        r@ == function_tool(name@, desc@, pairs_view(props@), Seq::new(required@.len(), |i: int| required@[i]@)),
{
    let ghost pv = pairs_view(props@);
    let ghost rv = Seq::new(required@.len(), |i: int| required@[i]@);
    let mut req: Vec<Json> = Vec::new();
    let mut i: usize = 0;
    while i < required.len()
        invariant
            i <= required@.len(),
            req@.len() == i,
            forall|k: int| 0 <= k < i ==> #[trigger] req@[k]@ == JsonV::Str(required@[k]@),
        decreases required@.len() - i,
    {
        req.push(Json::text(required[i]));
        i = i + 1;
    }
    let req_j = Json::Array(req);
    assert forall|k: int| 0 <= k < required@.len() implies req_j@->Array_0[k] == JsonV::Str(rv[k]) by {
        assert(req@[k]@ == JsonV::Str(required@[k]@));
    }
    assert(req_j@->Array_0 =~= Seq::new(rv.len(), |k: int| JsonV::Str(rv[k])));
    let props_j = crate::event::object(props);
    let pm = vec![(owned("type"), Json::text("object")), (owned("properties"), props_j), (owned("required"), req_j)];
    assert(pairs_view(pm@) =~= seq![
        ("type"@, JsonV::Str("object"@)),
        ("properties"@, JsonV::Object(pv)),
        ("required"@, JsonV::Array(Seq::new(rv.len(), |k: int| JsonV::Str(rv[k])))),
    ]);
    let params = crate::event::object(pm);
    let fm = vec![(owned("name"), Json::text(name)), (owned("description"), Json::text(desc)), (owned("parameters"), params)];
    assert(pairs_view(fm@) =~= seq![
        ("name"@, JsonV::Str(name@)),
        ("description"@, JsonV::Str(desc@)),
        ("parameters"@, params@),
    ]);
    let function = crate::event::object(fm);
    let top = vec![(owned("type"), Json::text("function")), (owned("function"), function)];
    assert(pairs_view(top@) =~= function_tool(name@, desc@, pv, rv)->Object_0);
    crate::event::object(top)
}

impl ToolKind {
    /// The OpenAI tool schema advertised to the model.
    pub fn schema(&self, windows: bool) -> (r: Json)
        ensures
            r@ == tool_schema(*self, windows),
    {
        match self {
            ToolKind::Shell => {
                let mut desc = owned("Run a shell command on the user's machine (via ");
                desc.append(if windows { "cmd /C" } else { "sh -c" });
                desc.append(") and return its stdout, stderr, and exit code. Use it to list files, run programs, use git, install packages, or carry out any system task. Output streams live, so long-running commands are fine.");
                let ps = vec![
                    prop_json("command", "string", "The command line to run."),
                    prop_json("cwd", "string", "Optional working directory to run in."),
                    prop_json("timeout_ms", "integer", "Optional wall-clock timeout in milliseconds (default 600000, max 3600000)."),
                ];
                let req = vec!["command"];
                let r = function_json("shell", desc.as_str(), ps, req);
                proof {
                    assert(pairs_view(ps@) =~= seq![
                        prop("command"@, "string"@, "The command line to run."@),
                        prop("cwd"@, "string"@, "Optional working directory to run in."@),
                        prop("timeout_ms"@, "integer"@, "Optional wall-clock timeout in milliseconds (default 600000, max 3600000)."@),
                    ]);
                    assert(Seq::new(req@.len(), |i: int| req@[i]@) =~= seq!["command"@]);
                }
                r
            },
            ToolKind::ReadFile => {
                let ps = vec![
                    prop_json("path", "string", "Absolute or relative path to read."),
                    prop_json("max_bytes", "integer", "Optional max bytes to return (default 1048576, max 16777216)."),
                ];
                let req = vec!["path"];
                let r = function_json("read_file", "Read a text file from the user's machine and return its contents (UTF-8, lossy). Large files are truncated to a byte budget.", ps, req);
                proof {
                    assert(pairs_view(ps@) =~= seq![
                        prop("path"@, "string"@, "Absolute or relative path to read."@),
                        prop("max_bytes"@, "integer"@, "Optional max bytes to return (default 1048576, max 16777216)."@),
                    ]);
                    assert(Seq::new(req@.len(), |i: int| req@[i]@) =~= seq!["path"@]);
                }
                r
            },
            ToolKind::WriteFile => {
                let ps = vec![
                    prop_json("path", "string", "Path to write."),
                    prop_json("content", "string", "The text to write."),
                    prop_json("create_dirs", "boolean", "Create missing parent directories (default true)."),
                    prop_json("append", "boolean", "Append instead of overwriting (default false)."),
                ];
                let req = vec!["path", "content"];
                let r = function_json("write_file", "Write text to a file on the user's machine. Creates parent directories by default. Set append to add to the end instead of overwriting.", ps, req);
                proof {
                    assert(pairs_view(ps@) =~= seq![
                        prop("path"@, "string"@, "Path to write."@),
                        prop("content"@, "string"@, "The text to write."@),
                        prop("create_dirs"@, "boolean"@, "Create missing parent directories (default true)."@),
                        prop("append"@, "boolean"@, "Append instead of overwriting (default false)."@),
                    ]);
                    assert(Seq::new(req@.len(), |i: int| req@[i]@) =~= seq!["path"@, "content"@]);
                }
                r
            },
            ToolKind::WebSearch => {
                let ps = vec![
                    prop_json("query", "string", "The search query."),
                    prop_json("limit", "integer", "Max results to return (default 5)."),
                ];
                let req = vec!["query"];
                let r = function_json("web_search", "Search the web and get back a list of results (title, URL, and a snippet). Use it to look up current facts, find pages, or gather sources before answering.", ps, req);
                proof {
                    assert(pairs_view(ps@) =~= seq![
                        prop("query"@, "string"@, "The search query."@),
                        prop("limit"@, "integer"@, "Max results to return (default 5)."@),
                    ]);
                    assert(Seq::new(req@.len(), |i: int| req@[i]@) =~= seq!["query"@]);
                }
                r
            },
        }
    }
}

/// The OpenAI `tools` array for a built kit.
pub fn tool_schemas(tools: &[ToolKind], windows: bool) -> (r: Vec<Json>)
    ensures
        r@.len() == tools@.len(),
        forall|i: int| 0 <= i < r@.len() ==> #[trigger] r@[i]@ == tool_schema(tools@[i], windows),
{
    let mut out: Vec<Json> = Vec::new();
    let mut i: usize = 0;
    while i < tools.len()
        invariant
            i <= tools@.len(),
            out@.len() == i,
            forall|k: int| 0 <= k < i ==> #[trigger] out@[k]@ == tool_schema(tools@[k], windows),
        decreases tools@.len() - i,
    {
        out.push(tools[i].schema(windows));
        i = i + 1;
    }
    out
}

/// The system addendum for a turn that offers tools: they are real, and
/// their arguments are exempt from the voice-only writing rules.
pub const TOOL_PREAMBLE: &'static str = "You have a set of real tools available, described in the tools list, that act on the user's own machine: you can run shell commands, read and write files, and search the web. Use them whenever doing so actually helps — to check something, fetch a fact, or carry out a task — rather than guessing or claiming you can't. The voice-only writing rules apply to what you say out loud, not to tool arguments: write shell commands, file paths, and search queries normally and precisely. As you work, narrate what you're doing in a natural, spoken way, and once the tools have done their job, give the user a short, plain-spoken answer.";

} // verus!
