//! The idle wait: the machine that judges the unsolicited events seen while
//! blocking on the watched folder.
//!
//! The machine tracks the running message count and stops the wait in exactly
//! two cases: an event reports a count strictly above the running one (a new
//! message), or the store says goodbye. Any event whose count is not a strict
//! increase merely re-records the count and keeps waiting, so duplicate or
//! spurious notifications never re-trigger a forward.

use vstd::prelude::*;

verus! {

/// One unsolicited event seen while waiting on the watched folder.
pub enum WaitEvent {
    /// The store reports that the folder now holds this many messages.
    Exists(u32),
    /// The store says goodbye: the session is over.
    Bye,
    /// Any other unsolicited event; it carries no news for the watch.
    Other,
}

/// The outcome of one whole blocking wait on the watched folder.
pub enum ChangeOutcome {
    /// The message count rose strictly above the running count; holds the new
    /// count, which is the sequence position to fetch.
    MailboxChanged(u32),
    /// The store ended the session, or the wait itself failed.
    SessionEnded,
    /// The wait timed out or saw nothing of interest.
    NoChange,
}

/// The state of one idle wait.
pub struct IdleState {
    /// The count last recorded during this wait; `None` once the store said
    /// goodbye.
    pub exists: Option<u32>,
    /// Whether the store said goodbye.
    pub bye: bool,
}

/// What one event does to the wait: the new state, and whether the wait goes
/// on (`true`) or stops (`false`).
pub open spec fn spec_step(st: IdleState, ev: WaitEvent) -> (bool, IdleState) {
    match ev {
        WaitEvent::Exists(id) => match st.exists {
            Some(last) => (id <= last, IdleState { exists: Some(id), bye: st.bye }),
            None => (false, st),
        },
        WaitEvent::Bye => (false, IdleState { exists: None, bye: true }),
        WaitEvent::Other => (true, st),
    }
}

/// What a finished wait reports: a new count only when the wait stopped on a
/// strict increase — never after a goodbye, and never after a failed wait.
pub open spec fn spec_outcome(st: IdleState, stopped: bool) -> ChangeOutcome {
    if !stopped || st.bye {
        ChangeOutcome::SessionEnded
    } else {
        match st.exists {
            Some(c) => ChangeOutcome::MailboxChanged(c),
            None => ChangeOutcome::SessionEnded,
        }
    }
}

impl IdleState {
    /// A fresh wait, starting from the baseline count of the watched folder.
    pub fn new(baseline: u32) -> (st: IdleState)
        ensures
            st == (IdleState { exists: Some(baseline), bye: false }),
    {
        IdleState { exists: Some(baseline), bye: false }
    }

    /// Feeds one unsolicited event to the wait. Returns whether the wait goes
    /// on: it stops only on a strict count increase or on a goodbye.
    pub fn step(&mut self, ev: &WaitEvent) -> (cont: bool)
        ensures
            cont == spec_step(*old(self), *ev).0,
            *final(self) == spec_step(*old(self), *ev).1,
    {
        match ev {
            WaitEvent::Exists(id) => match self.exists {
                Some(last) => {
                    self.exists = Some(*id);
                    *id <= last
                },
                None => false,
            },
            WaitEvent::Bye => {
                self.bye = true;
                self.exists = None;
                false
            },
            WaitEvent::Other => true,
        }
    }

    /// Reads the outcome of the finished wait; `stopped` says whether the wait
    /// ended because [`Self::step`] asked to stop, rather than by a timeout or
    /// an error of the wait itself.
    pub fn outcome(&self, stopped: bool) -> (oc: ChangeOutcome)
        ensures
            oc == spec_outcome(*self, stopped),
    {
        if !stopped || self.bye {
            ChangeOutcome::SessionEnded
        } else {
            match self.exists {
                Some(c) => ChangeOutcome::MailboxChanged(c),
                None => ChangeOutcome::SessionEnded,
            }
        }
    }
}

/// The outcome of a whole wait over a sequence of events: the events are fed
/// in order until one stops the wait; events exhausted without a stop mean a
/// timeout with nothing of interest.
pub open spec fn run_outcome(st: IdleState, evs: Seq<WaitEvent>) -> ChangeOutcome
    decreases evs.len(),
{
    if evs.len() == 0 {
        ChangeOutcome::NoChange
    } else {
        let r = spec_step(st, evs[0]);
        if r.0 {
            run_outcome(r.1, evs.drop_first())
        } else {
            spec_outcome(r.1, true)
        }
    }
}

/// Whether a sequence of events never reports a strict increase over the
/// running count: each reported count stays at or below the count recorded
/// before it.
pub open spec fn no_strict_increase(last: u32, evs: Seq<WaitEvent>) -> bool
    decreases evs.len(),
{
    if evs.len() == 0 {
        true
    } else {
        match evs[0] {
            WaitEvent::Exists(id) => id <= last && no_strict_increase(id, evs.drop_first()),
            WaitEvent::Bye => true,
            WaitEvent::Other => no_strict_increase(last, evs.drop_first()),
        }
    }
}

/// Baseline monotonicity, one step: a wait stops with a new count only when
/// the event is a count report strictly above the running count, and the new
/// count is then recorded as the running count.
pub proof fn lemma_fetch_needs_strict_increase(st: IdleState, ev: WaitEvent)
    ensures
        (!spec_step(st, ev).0 && spec_step(st, ev).1.exists is Some) ==> (st.exists is Some && (
        ev matches WaitEvent::Exists(c) && c > st.exists->0 && spec_step(st, ev).1.exists == Some(
            c,
        ))),
{
}

/// Baseline monotonicity, whole wait: over any sequence of events whose
/// reported counts never strictly increase over the running count — repeated
/// or decreasing counts, goodbyes, other events — the wait never reports a
/// changed mailbox, so no fetch is triggered.
pub proof fn lemma_baseline_monotonicity(st: IdleState, evs: Seq<WaitEvent>)
    requires
        st.exists matches Some(last) && no_strict_increase(last, evs),
    ensures
        !(run_outcome(st, evs) is MailboxChanged),
    decreases evs.len(),
{
    if evs.len() > 0 {
        let r = spec_step(st, evs[0]);
        if r.0 {
            match evs[0] {
                WaitEvent::Exists(id) => lemma_baseline_monotonicity(r.1, evs.drop_first()),
                WaitEvent::Bye => {},
                WaitEvent::Other => lemma_baseline_monotonicity(r.1, evs.drop_first()),
            }
        }
    }
}

} // verus!
