//! When the event loop polls the statistics.
//!
//! Each time the loop is about to wait, it looks at the next menu event (if
//! any) and at the time since the last poll: quitting ends the loop, toggling
//! a statistic polls at once, and otherwise a poll happens once the poll
//! interval has passed. Times are nanoseconds on a monotonic clock.

use vstd::prelude::*;

verus! {

/// The menu event seen while the loop is about to wait.
#[derive(Debug, Clone, Copy, PartialEq, Eq)]
pub enum MenuSignal {
    /// "Quit" was chosen.
    Quit,
    /// One of the statistic toggles was clicked.
    Toggle,
    /// Any other menu event.
    Other,
}

/// What the loop does next.
#[derive(Debug, Clone, Copy, PartialEq, Eq)]
pub enum LoopStep {
    /// Leave the event loop.
    Exit,
    /// Read the statistics, redraw, then wait one interval.
    Poll,
    /// Wait one interval.
    Wait,
}

/// Time elapsed since `last`; zero if the clock reads earlier.
pub open spec fn elapsed(last: u64, now: u64) -> int {
    if now >= last {
        now - last
    } else {
        0
    }
}

/// A poll is due: none happened yet, or `interval` has passed since the last.
pub open spec fn poll_due(last: Option<u64>, now: u64, interval: u64) -> bool {
    match last {
        None => true,
        Some(l) => elapsed(l, now) >= interval,
    }
}

/// The time of the last poll.
pub struct PollTimer {
    last_poll: Option<u64>,
}

impl PollTimer {
    pub closed spec fn last_poll(self) -> Option<u64> {
        self.last_poll
    }

    /// No poll yet: the first look polls at once.
    pub fn new() -> (t: Self)
        ensures
            t.last_poll() is None,
    {
        PollTimer { last_poll: None }
    }

    /// Decides the next step at time `now`, given the menu event seen (if
    /// any) and the current poll interval.
    pub fn next_step(&self, signal: Option<MenuSignal>, now: u64, interval: u64) -> (step: LoopStep)
        ensures
            signal == Some(MenuSignal::Quit) ==> step == LoopStep::Exit,
            signal == Some(MenuSignal::Toggle) ==> step == LoopStep::Poll,
            signal != Some(MenuSignal::Quit) && signal != Some(MenuSignal::Toggle) ==> step == (if poll_due(
                self.last_poll(),
                now,
                interval,
            ) {
                LoopStep::Poll
            } else {
                LoopStep::Wait
            }),
    {
        match signal {
            Some(MenuSignal::Quit) => LoopStep::Exit,
            Some(MenuSignal::Toggle) => LoopStep::Poll,
            _ => {
                let due = match self.last_poll {
                    None => true,
                    Some(last) => now.saturating_sub(last) >= interval,
                };
                if due {
                    LoopStep::Poll
                } else {
                    LoopStep::Wait
                }
            },
        }
    }

    /// Records that a poll finished at time `at`.
    pub fn record_poll(&mut self, at: u64)
        ensures
            final(self).last_poll() == Some(at),
    {
        self.last_poll = Some(at);
    }
}

/// Law: between two polls without a toggle in between, at least one poll
/// interval passes: a look sooner than that waits.
pub proof fn lemma_polls_are_an_interval_apart(last: u64, now: u64, interval: u64)
    requires
        elapsed(last, now) < interval,
    ensures
        !poll_due(Some(last), now, interval),
{
}

/// Law: once an interval has passed since the last poll, the next look polls.
pub proof fn lemma_poll_after_interval(last: u64, now: u64, interval: u64)
    requires
        now >= last,
        now - last >= interval,
    ensures
        poll_due(Some(last), now, interval),
{
}


/// Law: stated on the clock readings, with no poll yet the first look polls;
/// after a poll at `last`, a look at `now` polls exactly when `now - last`
/// reaches the interval (a clock reading earlier than `last` counts as no
/// time passed).
pub proof fn lemma_poll_due_on_clock(last: u64, now: u64, interval: u64)
    ensures
        poll_due(None, now, interval),
        now >= last ==> (poll_due(Some(last), now, interval) <==> now - last >= interval),
        now < last ==> (poll_due(Some(last), now, interval) <==> interval == 0),
{
}

} // verus!
