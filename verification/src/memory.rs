//! Layer 1 — working memory: the live conversation, bounded and volatile.
//! The recent back-and-forth that gives a turn its immediate context, capped
//! so the prompt stays bounded; not durable.

pub mod ingest;

use vstd::prelude::*;

use crate::llm::{bare_message, ChatMessage};
use vstd::string::StringExecFns;

use crate::text::{chars_of, dec_digits, decimal, owned, trim, trim_bounds, trimmed};

verus! {

/// The most recent `max` of `s` (all of it when shorter).
pub open spec fn keep_last(s: Seq<(Seq<char>, Seq<char>)>, max: nat) -> Seq<(Seq<char>, Seq<char>)> {
    if s.len() <= max {
        s
    } else {
        s.subrange(s.len() - max, s.len() as int)
    }
}

/// A bounded ring of the most recent conversation turns.
pub struct WorkingMemory {
    turns: Vec<ChatMessage>,
    max: usize,
}

impl WorkingMemory {
    /// The remembered turns, oldest first, as `(role, content)`.
    pub closed spec fn turns(&self) -> Seq<(Seq<char>, Seq<char>)> {
        Seq::new(self.turns@.len(), |i: int| (self.turns@[i].role@, self.turns@[i].content@))
    }

    /// How many turns are kept.
    pub closed spec fn cap(&self) -> nat {
        self.max as nat
    }

    /// At most `cap` turns, the cap at least one, every turn a plain message.
    pub closed spec fn wf(&self) -> bool {
        &&& self.max >= 1
        &&& self.turns@.len() <= self.max
        &&& forall|i: int| 0 <= i < self.turns@.len() ==> (#[trigger] self.turns@[i]).tool_calls@.len() == 0
            && self.turns@[i].tool_call_id is None
    }

    /// A working memory keeping the last `max` turns (at least one).
    pub fn new(max: usize) -> (w: Self)
        ensures
            w.wf(),
            w.turns().len() == 0,
            w.cap() == if max >= 1 { max as nat } else { 1 },
    {
        let w = WorkingMemory { turns: Vec::new(), max: if max >= 1 { max } else { 1 } };
        assert(w.turns() =~= Seq::<(Seq<char>, Seq<char>)>::empty());
        w
    }

    fn push(&mut self, m: ChatMessage)
        requires
            old(self).wf(),
            m.tool_calls@.len() == 0,
            m.tool_call_id is None,
        ensures
            final(self).wf(),
            final(self).cap() == old(self).cap(),
            final(self).turns() == keep_last(old(self).turns().push((m.role@, m.content@)), old(self).cap()),
    {
        let ghost before = self.turns();
        self.turns.push(m);
        assert(self.turns() =~= before.push((m.role@, m.content@)));
        if self.turns.len() > self.max {
            let cut = self.turns.len() - self.max;
            let ghost all = self.turns();
            let mut kept: Vec<ChatMessage> = Vec::new();
            let mut moved: Vec<ChatMessage> = Vec::new();
            std::mem::swap(&mut moved, &mut self.turns);
            let ghost mv = moved@;
            let total = moved.len();
            let mut i: usize = 0;
            while moved.len() > 0
                invariant
                    i + moved@.len() == mv.len(),
                    mv.len() == total,
                    forall|k: int| 0 <= k < moved@.len() ==> #[trigger] moved@[k] == mv[i + k],
                    cut <= mv.len(),
                    i <= cut ==> kept@.len() == 0,
                    i > cut ==> kept@.len() == i - cut,
                    forall|k: int| 0 <= k < kept@.len() ==> #[trigger] kept@[k] == mv[cut + k],
                decreases moved@.len(),
            {
                let x = moved.remove(0);
                if i >= cut {
                    kept.push(x);
                }
                i = i + 1;
            }
            self.turns = kept;
            assert(self.turns() =~= all.subrange(all.len() - self.max, all.len() as int));
        }
    }

    /// Record the user's turn.
    pub fn record_user(&mut self, text: &str)
        requires
            old(self).wf(),
        ensures
            final(self).wf(),
            final(self).cap() == old(self).cap(),
            final(self).turns() == keep_last(old(self).turns().push(("user"@, text@)), old(self).cap()),
    {
        self.push(ChatMessage::user(text));
    }

    /// Record Myo's reply; a reply that is only white space is skipped.
    pub fn record_assistant(&mut self, text: &str)
        requires
            old(self).wf(),
        ensures
            final(self).wf(),
            final(self).cap() == old(self).cap(),
            trim(text@).len() == 0 ==> final(self).turns() == old(self).turns(),
            trim(text@).len() > 0 ==> final(self).turns() == keep_last(old(self).turns().push(("assistant"@, text@)), old(self).cap()),
    {
        let cs = chars_of(text);
        let (b, e) = trim_bounds(&cs);
        if b < e {
            self.push(ChatMessage::assistant(text));
        }
    }

    /// A snapshot of the recent window, oldest first, for prompt assembly.
    pub fn window(&self) -> (r: Vec<ChatMessage>)
        requires
            self.wf(),
        ensures
            r@.len() == self.turns().len(),
            forall|i: int| 0 <= i < r@.len() ==> bare_message(#[trigger] r@[i], self.turns()[i].0, self.turns()[i].1),
    {
        let mut out: Vec<ChatMessage> = Vec::new();
        let mut i: usize = 0;
        while i < self.turns.len()
            invariant
                i <= self.turns@.len(),
                out@.len() == i,
                forall|k: int| 0 <= k < i ==> bare_message(#[trigger] out@[k], self.turns()[k].0, self.turns()[k].1),
            decreases self.turns@.len() - i,
        {
            let m = &self.turns[i];
            out.push(ChatMessage { role: m.role.clone(), content: m.content.clone(), tool_calls: Vec::new(), tool_call_id: None });
            i = i + 1;
        }
        out
    }

    /// Drop everything (a "start fresh" action).
    pub fn clear(&mut self)
        requires
            old(self).wf(),
        ensures
            final(self).wf(),
            final(self).cap() == old(self).cap(),
            final(self).turns().len() == 0,
    {
        self.turns.clear();
        assert(self.turns() =~= Seq::<(Seq<char>, Seq<char>)>::empty());
    }
}

/// Working memory never holds more than its cap, and recording keeps the
/// newest turns in order: the window after recording is the old window
/// with the new turn appended, cut to the last `cap`.
pub proof fn law_window_is_capped(old_turns: Seq<(Seq<char>, Seq<char>)>, m: (Seq<char>, Seq<char>), cap: nat)
    requires
        cap >= 1,
        old_turns.len() <= cap,
    ensures
        keep_last(old_turns.push(m), cap).len() <= cap,
        keep_last(old_turns.push(m), cap).last() == m,
        keep_last(old_turns.push(m), cap).len() == if old_turns.len() < cap { old_turns.len() as int + 1 } else { cap as int },
{
}

// ---------------------------------------------------------------------------
// Dream mode: the decisions of one downtime consolidation step.
// ---------------------------------------------------------------------------

/// What one dream step did, so the shell knows whether to keep dreaming or
/// stand down for this downtime.
#[derive(Debug, Clone, Copy, PartialEq, Eq, Structural)]
pub enum StepOutcome {
    /// Did a unit of work; call again (after the pause) if still idle.
    Worked,
    /// Nothing to do right now.
    Idle,
}

/// The unit of work a dream step takes on: forgetting first (no model
/// needed), then one consolidation, else nothing.
#[derive(Debug, Clone, Copy, PartialEq, Eq, Structural)]
pub enum DreamWork {
    Forget,
    Consolidate,
    Rest,
}

pub open spec fn dream_work_of(forget_planned: nat, cluster_planned: bool) -> DreamWork {
    if forget_planned > 0 {
        DreamWork::Forget
    } else if cluster_planned {
        DreamWork::Consolidate
    } else {
        DreamWork::Rest
    }
}

/// Pick a step's work from what the store planned: `forget_planned`
/// memories to let go of, and whether an aging cluster awaits consolidation.
pub fn dream_work(forget_planned: usize, cluster_planned: bool) -> (r: DreamWork)
    ensures
        r == dream_work_of(forget_planned as nat, cluster_planned),
{
    if forget_planned > 0 {
        DreamWork::Forget
    } else if cluster_planned {
        DreamWork::Consolidate
    } else {
        DreamWork::Rest
    }
}

impl DreamWork {
    /// The outcome a step reports once this work is done.
    pub fn outcome(self) -> (r: StepOutcome)
        ensures
            r == (if self == DreamWork::Rest { StepOutcome::Idle } else { StepOutcome::Worked }),
    {
        match self {
            DreamWork::Rest => StepOutcome::Idle,
            _ => StepOutcome::Worked,
        }
    }
}

/// `one` for a count of one, `many` otherwise.
pub fn plural<'a>(n: usize, one: &'a str, many: &'a str) -> (r: &'a str)
    ensures
        r@ == (if n == 1 { one@ } else { many@ }),
{
    if n == 1 {
        one
    } else {
        many
    }
}

/// The note a forget pass reports.
pub fn forget_note(n: usize) -> (r: String)
    ensures
        r@ == "let go of "@ + dec_digits(n as nat) + " aging "@ + (if n == 1 { "memory"@ } else { "memories"@ }),
{
    let mut r = owned("let go of ");
    r.append(decimal(n as u64).as_str());
    r.append(" aging ");
    r.append(plural(n, "memory", "memories"));
    r
}

/// The note a consolidation reports.
pub fn consolidate_note(count: usize, category: &str) -> (r: String)
    ensures
        r@ == "compacting "@ + dec_digits(count as nat) + " "@ + category@ + " memories"@,
{
    let mut r = owned("compacting ");
    r.append(decimal(count as u64).as_str());
    r.append(" ");
    r.append(category);
    r.append(" memories");
    r
}

/// The system instruction for a consolidation.
pub const CONSOLIDATE_INSTRUCTION: &'static str = "You are consolidating a person's long-term memories during downtime. Merge the related memories below into a single durable memory of one or two sentences that preserves the lasting gist and drops incidental detail. Keep it concrete and write it the same plain way the originals are written. Output only the consolidated memory — no preamble, no quotes, no list.";

/// The memories of a cluster as `- text` lines.
pub open spec fn bullet_lines(texts: Seq<Seq<char>>) -> Seq<char>
    decreases texts.len(),
{
    if texts.len() == 0 {
        seq![]
    } else {
        bullet_lines(texts.drop_last()) + "- "@ + texts.last() + "\n"@
    }
}

/// The user message of a consolidation: the category and the memories.
pub open spec fn consolidation_prompt(category: Seq<char>, texts: Seq<Seq<char>>) -> Seq<char> {
    "Category: "@ + category + "\nMemories:\n"@ + bullet_lines(texts)
}

/// Build the consolidation request for a cluster: the instruction, then the
/// category and its memories.
pub fn consolidation_messages(category: &str, texts: &[String]) -> (r: Vec<ChatMessage>)
    ensures
        r@.len() == 2,
        bare_message(r@[0], "system"@, CONSOLIDATE_INSTRUCTION@),
        bare_message(r@[1], "user"@, consolidation_prompt(category@, texts@.map_values(|t: String| t@))),
{
    let ghost tv = texts@.map_values(|t: String| t@);
    let mut joined = String::new();
    let mut i: usize = 0;
    while i < texts.len()
        invariant
            i <= texts@.len(),
            tv == texts@.map_values(|t: String| t@),
            joined@ == bullet_lines(tv.subrange(0, i as int)),
        decreases texts@.len() - i,
    {
        proof {
            assert(tv.subrange(0, i + 1).drop_last() =~= tv.subrange(0, i as int));
            assert(tv.subrange(0, i + 1).last() == texts@[i as int]@);
        }
        joined.append("- ");
        joined.append(texts[i].as_str());
        joined.append("\n");
        assert(joined@ =~= bullet_lines(tv.subrange(0, i + 1)));
        i = i + 1;
    }
    assert(tv.subrange(0, texts@.len() as int) =~= tv);
    let mut user = owned("Category: ");
    user.append(category);
    user.append("\nMemories:\n");
    user.append(joined.as_str());
    assert(user@ =~= consolidation_prompt(category@, tv));
    vec![ChatMessage::system(CONSOLIDATE_INSTRUCTION), ChatMessage::user(user.as_str())]
}

/// The calcified memory a consolidation produced: the model's reply
/// trimmed, which must not be empty.
pub fn consolidation_summary(reply: &str) -> (r: Result<String, String>)
    ensures
        trim(reply@).len() > 0 ==> (r matches Ok(s) && s@ == trim(reply@)),
        trim(reply@).len() == 0 ==> (r matches Err(e) && e@ == "consolidation produced an empty summary"@),
{
    let s = trimmed(reply);
    if s.as_str().is_empty() {
        Err(owned("consolidation produced an empty summary"))
    } else {
        Ok(s)
    }
}

} // verus!
