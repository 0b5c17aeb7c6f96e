//! The `remember` / `recall` tools' logic: Myo's deliberate hand on its own
//! memory. Reading their arguments, honouring incognito, and the text the
//! model reads back; embedding and the store itself sit at the edge.

use vstd::prelude::*;
use vstd::string::StringExecFns;

use crate::event::pairs_view;
use crate::json::{opt_view, Json, JsonV};
use crate::text::{int_string, int_text, owned, trim, trimmed};
use crate::tools::{function_json, function_tool, prop, prop_json};

verus! {

/// How many memories a recall returns when the call names no limit.
pub const RECALL_K: u64 = 5;

/// The `remember` tool.
pub struct RememberTool;

/// The `recall` tool.
pub struct RecallTool;

/// What the model is told when incognito keeps a memory from being saved.
pub const INCOGNITO_NOTE: &'static str = "Incognito is on, so I didn't save that to long-term memory.";

pub open spec fn remember_schema() -> JsonV {
    function_tool(
        "remember"@,
        "Save a durable memory about the user or the world that's worth keeping for future conversations — a preference, a fact, an ongoing project, an important detail. Write one clear, self-contained sentence. Recall is automatic later, so remember things you'd want to know next time."@,
        seq![
            prop("text"@, "string"@, "The memory, as one self-contained sentence."@),
            prop("category"@, "string"@, "A short label, e.g. 'preference', 'fact', 'project', 'event'. Defaults to 'fact'."@),
        ],
        seq!["text"@],
    )
}

pub open spec fn recall_schema() -> JsonV {
    function_tool(
        "recall"@,
        "Search your long-term memory for things you remember about a topic. Relevant memories are already surfaced automatically each turn; use this when you want to look something specific up on purpose."@,
        seq![
            prop("query"@, "string"@, "What to look up in memory."@),
            prop("limit"@, "integer"@, "Max memories to return (default 5)."@),
        ],
        seq!["query"@],
    )
}

/// What a `remember` call comes to.
#[derive(Debug, PartialEq)]
pub enum RememberStep {
    /// Incognito is on: nothing is written, the model reads [`INCOGNITO_NOTE`].
    Paused,
    /// Save `text` under `category`.
    Save { text: String, category: String },
}

/// The category a `remember` call files under: its trimmed `category`, or
/// `fact` when that is missing or blank.
pub open spec fn remember_category(args: JsonV) -> Seq<char> {
    match args.str_member("category"@) {
        Some(c) => if trim(c).len() > 0 {
            trim(c)
        } else {
            "fact"@
        },
        None => "fact"@,
    }
}

impl RememberTool {
    pub fn name(&self) -> (r: &'static str)
        ensures
            r@ == "remember"@,
    {
        "remember"
    }

    /// The activity pill's headline: the memory being saved.
    pub fn headline(&self, args: &Json) -> (r: Option<String>)
        ensures
            opt_view(r) == args@.str_member("text"@),
    {
        match args.get_str("text") {
            Some(s) => Some(owned(s)),
            None => None,
        }
    }

    /// The OpenAI tool schema advertised to the model.
    pub fn schema(&self) -> (r: Json)
        ensures
            r@ == remember_schema(),
    {
        let ps = vec![
            prop_json("text", "string", "The memory, as one self-contained sentence."),
            prop_json("category", "string", "A short label, e.g. 'preference', 'fact', 'project', 'event'. Defaults to 'fact'."),
        ];
        let req = vec!["text"];
        let r = function_json("remember", "Save a durable memory about the user or the world that's worth keeping for future conversations — a preference, a fact, an ongoing project, an important detail. Write one clear, self-contained sentence. Recall is automatic later, so remember things you'd want to know next time.", ps, req);
        proof {
            assert(pairs_view(ps@) =~= seq![
                prop("text"@, "string"@, "The memory, as one self-contained sentence."@),
                prop("category"@, "string"@, "A short label, e.g. 'preference', 'fact', 'project', 'event'. Defaults to 'fact'."@),
            ]);
            assert(Seq::new(req@.len(), |i: int| req@[i]@) =~= seq!["text"@]);
        }
        r
    }

    /// Decide a `remember` call: its text must be a non-blank string; under
    /// incognito nothing is saved; otherwise save the trimmed text under
    /// [`remember_category`].
    pub fn step(&self, args: &Json, incognito: bool) -> (r: Result<RememberStep, String>)
        ensures
            match args@.str_member("text"@) {
                None => r matches Err(e) && e@ == "remember requires a 'text' string"@,
                Some(t) => if trim(t).len() == 0 {
                    r matches Err(e) && e@ == "remember requires non-empty 'text'"@
                } else if incognito {
                    r matches Ok(RememberStep::Paused)
                } else {
                    r matches Ok(RememberStep::Save { text, category })
                        && text@ == trim(t) && category@ == remember_category(args@)
                },
            },
    {
        let text = match args.get_str("text") {
            Some(t) => trimmed(t),
            None => return Err(owned("remember requires a 'text' string")),
        };
        if text.as_str().is_empty() {
            return Err(owned("remember requires non-empty 'text'"));
        }
        if incognito {
            return Ok(RememberStep::Paused);
        }
        let category = match args.get_str("category") {
            Some(c) => {
                let c = trimmed(c);
                if c.as_str().is_empty() {
                    owned("fact")
                } else {
                    c
                }
            },
            None => owned("fact"),
        };
        Ok(RememberStep::Save { text, category })
    }

    /// What the model reads after a save.
    pub fn saved_text(id: i64, category: &str) -> (r: String)
        ensures
            r@ == "Saved to long-term memory (id "@ + int_text(id as int) + ", category "@ + category@ + ")."@,
    {
        let mut r = owned("Saved to long-term memory (id ");
        r.append(int_string(id).as_str());
        r.append(", category ");
        r.append(category);
        r.append(").");
        r
    }

    /// The progress line streamed after a save.
    pub fn progress_text(text: &str) -> (r: String)
        ensures
            r@ == "Remembered: "@ + text@,
    {
        let mut r = owned("Remembered: ");
        r.append(text);
        r
    }
}

/// The number of memories a `recall` call asks for: its `limit` clamped to
/// 1..=10, or [`RECALL_K`] when it names none.
pub open spec fn recall_limit(args: JsonV) -> u64 {
    match crate::sse::normalize::field_u64(args, "limit"@) {
        Some(n) => if n < 1 {
            1
        } else if n > 10 {
            10
        } else {
            n
        },
        None => RECALL_K,
    }
}

/// The lines listing recalled memories, one `- text` line each.
pub open spec fn hit_lines(hits: Seq<Seq<char>>) -> Seq<char>
    decreases hits.len(),
{
    if hits.len() == 0 {
        seq![]
    } else {
        hit_lines(hits.drop_last()) + "- "@ + hits.last() + "\n"@
    }
}

/// What the model reads back from a recall of `query`.
pub open spec fn recall_text(query: Seq<char>, hits: Seq<Seq<char>>) -> Seq<char> {
    if hits.len() == 0 {
        "Nothing in long-term memory about \""@ + query + "\"."@
    } else {
        "From long-term memory about \""@ + query + "\":\n"@ + hit_lines(hits)
    }
}

impl RecallTool {
    pub fn name(&self) -> (r: &'static str)
        ensures
            r@ == "recall"@,
    {
        "recall"
    }

    /// The activity pill's headline: the query.
    pub fn headline(&self, args: &Json) -> (r: Option<String>)
        ensures
            opt_view(r) == args@.str_member("query"@),
    {
        match args.get_str("query") {
            Some(s) => Some(owned(s)),
            None => None,
        }
    }

    /// The OpenAI tool schema advertised to the model.
    pub fn schema(&self) -> (r: Json)
        ensures
            r@ == recall_schema(),
    {
        let ps = vec![
            prop_json("query", "string", "What to look up in memory."),
            prop_json("limit", "integer", "Max memories to return (default 5)."),
        ];
        let req = vec!["query"];
        let r = function_json("recall", "Search your long-term memory for things you remember about a topic. Relevant memories are already surfaced automatically each turn; use this when you want to look something specific up on purpose.", ps, req);
        proof {
            assert(pairs_view(ps@) =~= seq![
                prop("query"@, "string"@, "What to look up in memory."@),
                prop("limit"@, "integer"@, "Max memories to return (default 5)."@),
            ]);
            assert(Seq::new(req@.len(), |i: int| req@[i]@) =~= seq!["query"@]);
        }
        r
    }

    /// Read a `recall` call: its query (required) and how many memories to
    /// return.
    pub fn args(&self, args: &Json) -> (r: Result<(String, u64), String>)
        ensures
            match args@.str_member("query"@) {
                None => r matches Err(e) && e@ == "recall requires a 'query' string"@,
                Some(q) => r matches Ok((s, n)) && s@ == q && n == recall_limit(args@),
            },
    {
        let query = match args.get_str("query") {
            Some(q) => owned(q),
            None => return Err(owned("recall requires a 'query' string")),
        };
        let limit = match args.get("limit") {
            Some(x) => match x.as_u64() {
                Some(n) => if n < 1 {
                    1
                } else if n > 10 {
                    10
                } else {
                    n
                },
                None => RECALL_K,
            },
            None => RECALL_K,
        };
        Ok((query, limit))
    }

    /// Shape the recalled memories into the text the model reads back.
    pub fn result_text(query: &str, hits: &[String]) -> (r: String)
        ensures
            r@ == recall_text(query@, hits@.map_values(|h: String| h@)),
    {
        let ghost hv = hits@.map_values(|h: String| h@);
        if hits.len() == 0 {
            let mut r = owned("Nothing in long-term memory about \"");
            r.append(query);
            r.append("\".");
            return r;
        }
        let mut r = owned("From long-term memory about \"");
        r.append(query);
        r.append("\":\n");
        let ghost head = r@;
        let mut i: usize = 0;
        while i < hits.len()
            invariant
                i <= hits@.len(),
                hv == hits@.map_values(|h: String| h@),
                r@ == head + hit_lines(hv.subrange(0, i as int)),
            decreases hits@.len() - i,
        {
            proof {
                assert(hv.subrange(0, i + 1).drop_last() =~= hv.subrange(0, i as int));
                assert(hv.subrange(0, i + 1).last() == hits@[i as int]@);
            }
            r.append("- ");
            r.append(hits[i].as_str());
            r.append("\n");
            assert(r@ =~= head + hit_lines(hv.subrange(0, i + 1)));
            i = i + 1;
        }
        assert(hv.subrange(0, hits@.len() as int) =~= hv);
        r
    }
}

} // verus!
