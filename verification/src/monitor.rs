//! Activity monitor: measures how long the merged stream has been silent
//! and escalates a discrete error mode that widens diagnostic verbosity;
//! any forward progress resets it.

use vstd::prelude::*;

verus! {

/// Seconds of silence after which the error mode becomes 1.
pub const MODE1_AFTER_SECS: u64 = 1800;

/// Seconds of silence after which the error mode becomes 2.
pub const MODE2_AFTER_SECS: u64 = 3600;

/// Seconds of silence after which the error mode becomes 3.
pub const MODE3_AFTER_SECS: u64 = 5400;

/// The verbosity floor the embedding program is asked to apply.
#[derive(Clone, Copy, Debug, PartialEq, Eq, Structural)]
pub enum Verbosity {
    /// Nominal operation: warnings only.
    Warn,
    /// Error mode 1.
    Info,
    /// Error mode 2.
    Debug,
    /// Error mode 3.
    Trace,
}

/// Seconds elapsed between a recorded instant and now. A wall clock can
/// step backwards; an earlier `now` counts as no elapsed time.
pub open spec fn elapsed_secs(then: u64, now: u64) -> u64 {
    if now >= then {
        (now - then) as u64
    } else {
        0u64
    }
}

/// The error mode that a given silence demands.
pub open spec fn mode_for(elapsed_secs: u64) -> u8 {
    if elapsed_secs > MODE3_AFTER_SECS {
        3u8
    } else if elapsed_secs > MODE2_AFTER_SECS {
        2u8
    } else if elapsed_secs > MODE1_AFTER_SECS {
        1u8
    } else {
        0u8
    }
}

/// The verbosity floor of each escalated error mode.
pub open spec fn verbosity_for(mode: u8) -> Verbosity {
    if mode == 1 {
        Verbosity::Info
    } else if mode == 2 {
        Verbosity::Debug
    } else {
        Verbosity::Trace
    }
}

/// Time of the last observed progress and the current error mode.
pub struct ActivityMonitor {
    /// When the last new item was seen (seconds since epoch); nothing
    /// before the first item.
    pub last_progress_at: Option<u64>,
    /// Discrete escalation level, 0 through 3.
    pub error_mode: u8,
}

impl ActivityMonitor {
    pub open spec fn wf(self) -> bool {
        self.error_mode <= 3
    }

    pub fn new() -> (m: ActivityMonitor)
        ensures
            m.last_progress_at is None,
            m.error_mode == 0,
            m.wf(),
    {
        ActivityMonitor { last_progress_at: None, error_mode: 0 }
    }

    /// One escalation check at time `now`. The mode moves exactly when the
    /// elapsed silence demands a non-nominal mode other than the current
    /// one; the demanded verbosity floor is handed back so the transition
    /// can be logged and applied. Before any progress was seen, inside
    /// the current mode's span, or under a clock that stepped backwards,
    /// nothing changes.
    pub fn check_escalation(&mut self, now: u64) -> (r: Option<Verbosity>)
        requires
            old(self).wf(),
        ensures
            final(self).last_progress_at == old(self).last_progress_at,
            final(self).wf(),
            match old(self).last_progress_at {
                None => r is None && final(self).error_mode == old(self).error_mode,
                Some(t) => {
                    let m = mode_for(elapsed_secs(t, now));
                    if m != 0 && m != old(self).error_mode {
                        &&& final(self).error_mode == m
                        &&& r == Some(verbosity_for(m))
                    } else {
                        &&& final(self).error_mode == old(self).error_mode
                        &&& r is None
                    }
                },
            },
    {
        match self.last_progress_at {
            None => None,
            Some(t) => {
                let elapsed: u64 = if now >= t {
                    now - t
                } else {
                    0
                };
                if elapsed > MODE3_AFTER_SECS {
                    if self.error_mode != 3 {
                        self.error_mode = 3;
                        return Some(Verbosity::Trace);
                    }
                    None
                } else if elapsed > MODE2_AFTER_SECS {
                    if self.error_mode != 2 {
                        self.error_mode = 2;
                        return Some(Verbosity::Debug);
                    }
                    None
                } else if elapsed > MODE1_AFTER_SECS {
                    if self.error_mode != 1 {
                        self.error_mode = 1;
                        return Some(Verbosity::Info);
                    }
                    None
                } else {
                    None
                }
            },
        }
    }

    /// Forward progress at time `now`: remembers the time and drops the
    /// error mode back to 0 whatever it was. Says whether a non-zero mode
    /// was reset, in which case the verbosity floor falls back to
    /// [`Verbosity::Warn`] and the reset is logged.
    pub fn on_progress(&mut self, now: u64) -> (was_escalated: bool)
        ensures
            final(self).last_progress_at == Some(now),
            final(self).error_mode == 0,
            was_escalated == (old(self).error_mode != 0),
            final(self).wf(),
    {
        self.last_progress_at = Some(now);
        let was = self.error_mode != 0;
        self.error_mode = 0;
        was
    }
}

} // verus!
