//! The model engine's load progress, surfaced as an inline bar: when to
//! publish the active acquisitions, when to clear the bar, and how fast to
//! poll. Fetching the engine's progress report happens at the edge.

use vstd::prelude::*;

use crate::event::{MyoEvent, MyoEventV};
use crate::json::{Json, JsonV};
use crate::text::owned;

verus! {

/// Poll interval while a load is in flight, in milliseconds.
pub const ACTIVE_POLL_MS: u64 = 450;

/// Poll interval while nothing loads, in milliseconds.
pub const IDLE_POLL_MS: u64 = 1500;

/// What to do after one poll.
#[derive(Debug, Clone, Copy, PartialEq, Eq, Structural)]
pub enum PollAction {
    /// Publish the active set.
    Publish,
    /// A run just finished: publish the empty set once to clear the bar.
    Clear,
    /// Nothing to say.
    Quiet,
}

/// The poller's memory: whether the last poll saw a load in flight.
pub struct ProgressPoller {
    was_active: bool,
}

impl ProgressPoller {
    pub closed spec fn active(&self) -> bool {
        self.was_active
    }

    pub fn new() -> (p: Self)
        ensures
            !p.active(),
    {
        ProgressPoller { was_active: false }
    }

    /// Take in one poll (whether anything is loading) and say what to do
    /// and how long to wait before the next poll.
    pub fn on_poll(&mut self, any_active: bool) -> (r: (PollAction, u64))
        ensures
            any_active ==> r == (PollAction::Publish, ACTIVE_POLL_MS) && final(self).active(),
            !any_active && old(self).active() ==> r == (PollAction::Clear, IDLE_POLL_MS) && !final(self).active(),
            !any_active && !old(self).active() ==> r == (PollAction::Quiet, IDLE_POLL_MS) && !final(self).active(),
    {
        if any_active {
            self.was_active = true;
            (PollAction::Publish, ACTIVE_POLL_MS)
        } else if self.was_active {
            self.was_active = false;
            (PollAction::Clear, IDLE_POLL_MS)
        } else {
            (PollAction::Quiet, IDLE_POLL_MS)
        }
    }
}

/// The `myo://progress` event for the active acquisitions (`kind:
/// "model_load"`, engine-level so its turn is `0`); an empty set clears the
/// bar.
pub fn active_event(active: Vec<Json>) -> (r: MyoEvent)
    ensures
        r@ == (MyoEventV::Progress {
            turn: 0,
            kind: "model_load"@,
            data: JsonV::Object(seq![("active"@, JsonV::Array(Seq::new(active@.len(), |i: int| active@[i]@)))]),
        }),
{
    let ghost av = Seq::new(active@.len(), |i: int| active@[i]@);
    let arr = Json::Array(active);
    assert(arr@->Array_0 =~= av);
    let m = vec![(owned("active"), arr)];
    assert(crate::json::pairs_view(m@) =~= seq![("active"@, JsonV::Array(av))]);
    MyoEvent::Progress { turn: 0, kind: owned("model_load"), data: crate::event::object(m) }
}

} // verus!
