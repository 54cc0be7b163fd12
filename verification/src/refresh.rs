//! The template-refresh clock: templates go out with the first tick and then whenever
//! the refresh interval has passed since they last went out.

use vstd::prelude::*;

verus! {

/// The refresh interval used when none is configured, in seconds.
pub const REFRESH_INTERVAL: u64 = 30;

/// When templates were last sent, on a monotonic clock, and how long to wait before
/// they are sent again. Both are in the same unit.
#[derive(Debug, Clone, Copy)]
pub struct TemplateRefreshClock {
    pub last_send: Option<u64>,
    pub interval: u64,
}

/// Whether templates are due at time `now`: on the first tick, and when at least the
/// interval has passed since they were last sent.
pub open spec fn templates_due(clock: TemplateRefreshClock, now: u64) -> bool {
    match clock.last_send {
        None => true,
        Some(last) => now - last >= clock.interval,
    }
}

impl TemplateRefreshClock {
    /// A clock that has not sent templates yet.
    pub fn new(interval: u64) -> (clock: TemplateRefreshClock)
        ensures
            clock.last_send is None,
            clock.interval == interval,
    {
        TemplateRefreshClock { last_send: None, interval }
    }

    /// Decides whether this tick includes templates, and remembers the time if it does.
    pub fn tick(&mut self, now: u64) -> (include_templates: bool)
        ensures
            include_templates == templates_due(*old(self), now),
            final(self).interval == old(self).interval,
            final(self).last_send == if include_templates {
                Some(now)
            } else {
                old(self).last_send
            },
    {
        let due = match self.last_send {
            None => true,
            Some(last) => now >= last && now - last >= self.interval,
        };
        if due {
            self.last_send = Some(now);
        }
        due
    }
}

impl Default for TemplateRefreshClock {
    fn default() -> (clock: TemplateRefreshClock)
        ensures
            clock.last_send is None,
            clock.interval == REFRESH_INTERVAL,
    {
        TemplateRefreshClock { last_send: None, interval: REFRESH_INTERVAL }
    }
}

/// After templates went out at time `sent`, no tick before `sent + interval` includes
/// them, and the first tick at or after that time does.
pub proof fn lemma_refresh_window(clock: TemplateRefreshClock, sent: u64, now: u64)
    requires
        clock.last_send == Some(sent),
        sent <= now,
    ensures
        templates_due(clock, now) <==> now >= sent + clock.interval,
{
}

} // verus!
