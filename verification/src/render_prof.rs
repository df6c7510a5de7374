//! Per-second render-cost counters for the attach loop.
//!
//! The counters are off unless the environment asks for them. While they are
//! on, every counted event adds to its counter, and a tick at least one window
//! after the last report hands out all counters and starts them over.
use vstd::prelude::*;

use crate::tiling::min_of;

verus! {

/// Nanoseconds in a millisecond.
pub const MILLI: u64 = 1_000_000;

/// The reporting window: one second.
pub const WINDOW: u64 = 1_000_000_000;

/// A reading of the monotonic clock, in nanoseconds from some fixed start.
#[derive(Debug, Clone, Copy, PartialEq, Eq, Structural)]
pub struct Moment {
    pub nanos: u128,
}

/// What each event counter stands at.
#[derive(Debug, Clone, Copy, PartialEq, Eq, Structural)]
pub struct Counters {
    /// Output frames applied to a mirror.
    pub frames: u64,
    /// Composited frames emitted.
    pub paints: u64,
    /// Frames whose paint was withheld.
    pub skipped: u64,
    /// Runs of the status-bar widgets.
    pub bar_composes: u64,
    /// Layouts computed anew.
    pub layouts: u64,
    /// Buffers shipped to the terminal writer.
    pub flushes: u64,
    /// Frames admitted because they answer the user's input.
    pub paced_replies: u64,
    /// Frames the pacer made wait.
    pub paced_waits: u64,
    /// Bytes shipped to the terminal writer.
    pub bytes: u64,
}

/// All counters at zero.
pub open spec fn zeroed() -> Counters {
    Counters {
        frames: 0,
        paints: 0,
        skipped: 0,
        bar_composes: 0,
        layouts: 0,
        flushes: 0,
        paced_replies: 0,
        paced_waits: 0,
        bytes: 0,
    }
}

/// One report: the counters of the window and how long it lasted.
#[derive(Debug, Clone, Copy, PartialEq, Eq, Structural)]
pub struct ProfReport {
    pub counters: Counters,
    pub window_ms: u64,
}

/// The counters, whether they are on, and when the current window started.
#[derive(Debug, Clone, Copy, PartialEq, Eq, Structural)]
pub struct RenderProf {
    pub enabled: bool,
    pub counters: Counters,
    pub window_start: Option<Moment>,
}

/// `a + b` as a counter adds: past the largest number it starts over.
pub open spec fn wrapped_sum(a: u64, b: u64) -> u64 {
    if a + b <= u64::MAX {
        (a + b) as u64
    } else {
        (a + b - 0x1_0000_0000_0000_0000) as u64
    }
}

/// The environment's value asks for counters: it is set, not empty, and not
/// `0`.
pub open spec fn asks_for_counters(value: Option<Seq<u8>>) -> bool {
    match value {
        Some(v) => v.len() > 0 && v != seq![48u8],
        None => false,
    }
}

pub open spec fn bytes_of(value: Option<&[u8]>) -> Option<Seq<u8>> {
    match value {
        Some(v) => Some(v@),
        None => None,
    }
}

/// Whether the environment's value asks for counters.
pub fn enabled(value: Option<&[u8]>) -> (on: bool)
    ensures
        on == asks_for_counters(bytes_of(value)),
{
    match value {
        Some(v) => {
            let zero = v.len() == 1 && v[0] == 48;
            proof {
                if zero {
                    assert(v@ =~= seq![48u8]);
                }
            }
            v.len() > 0 && !zero
        },
        None => false,
    }
}

fn added(a: u64, b: u64) -> (sum: u64)
    ensures
        sum == wrapped_sum(a, b),
{
    a.wrapping_add(b)
}

/// How long the window has lasted at `now`, if it started at `start`. A clock
/// that reads earlier than the start counts as no time.
pub open spec fn elapsed_nanos(start: Option<Moment>, now: Moment) -> int {
    match start {
        Some(s) => if s.nanos <= now.nanos {
            now.nanos - s.nanos
        } else {
            0
        },
        None => 0,
    }
}

impl RenderProf {
    /// Counters at zero, on or off, with no window started.
    pub fn new(enabled: bool) -> (p: RenderProf)
        ensures
            p == (RenderProf { enabled, counters: zeroed(), window_start: None }),
    {
        RenderProf {
            enabled,
            counters: Counters {
                frames: 0,
                paints: 0,
                skipped: 0,
                bar_composes: 0,
                layouts: 0,
                flushes: 0,
                paced_replies: 0,
                paced_waits: 0,
                bytes: 0,
            },
            window_start: None,
        }
    }

    /// Count output frames applied to a pane mirror.
    pub fn note_frames(&mut self, n: u64)
        ensures
            *final(self) == if old(self).enabled {
                RenderProf {
                    counters: Counters {
                        frames: wrapped_sum(old(self).counters.frames, n),
                        ..old(self).counters
                    },
                    ..*old(self)
                }
            } else {
                *old(self)
            },
    {
        if self.enabled {
            self.counters.frames = added(self.counters.frames, n);
        }
    }

    /// Count composited frames emitted to the sink.
    pub fn note_paints(&mut self, n: u64)
        ensures
            *final(self) == if old(self).enabled {
                RenderProf {
                    counters: Counters {
                        paints: wrapped_sum(old(self).counters.paints, n),
                        ..old(self).counters
                    },
                    ..*old(self)
                }
            } else {
                *old(self)
            },
    {
        if self.enabled {
            self.counters.paints = added(self.counters.paints, n);
        }
    }

    /// Count frames whose paint was withheld.
    pub fn note_skipped(&mut self, n: u64)
        ensures
            *final(self) == if old(self).enabled {
                RenderProf {
                    counters: Counters {
                        skipped: wrapped_sum(old(self).counters.skipped, n),
                        ..old(self).counters
                    },
                    ..*old(self)
                }
            } else {
                *old(self)
            },
    {
        if self.enabled {
            self.counters.skipped = added(self.counters.skipped, n);
        }
    }

    /// Count runs of the status-bar widgets.
    pub fn note_bar_composes(&mut self, n: u64)
        ensures
            *final(self) == if old(self).enabled {
                RenderProf {
                    counters: Counters {
                        bar_composes: wrapped_sum(old(self).counters.bar_composes, n),
                        ..old(self).counters
                    },
                    ..*old(self)
                }
            } else {
                *old(self)
            },
    {
        if self.enabled {
            self.counters.bar_composes = added(self.counters.bar_composes, n);
        }
    }

    /// Count layouts that missed the cache.
    pub fn note_layouts(&mut self, n: u64)
        ensures
            *final(self) == if old(self).enabled {
                RenderProf {
                    counters: Counters {
                        layouts: wrapped_sum(old(self).counters.layouts, n),
                        ..old(self).counters
                    },
                    ..*old(self)
                }
            } else {
                *old(self)
            },
    {
        if self.enabled {
            self.counters.layouts = added(self.counters.layouts, n);
        }
    }

    /// Count buffers shipped to the terminal writer.
    pub fn note_flushes(&mut self, n: u64)
        ensures
            *final(self) == if old(self).enabled {
                RenderProf {
                    counters: Counters {
                        flushes: wrapped_sum(old(self).counters.flushes, n),
                        ..old(self).counters
                    },
                    ..*old(self)
                }
            } else {
                *old(self)
            },
    {
        if self.enabled {
            self.counters.flushes = added(self.counters.flushes, n);
        }
    }

    /// Count bytes shipped to the terminal writer.
    pub fn note_bytes(&mut self, n: u64)
        ensures
            *final(self) == if old(self).enabled {
                RenderProf {
                    counters: Counters {
                        bytes: wrapped_sum(old(self).counters.bytes, n),
                        ..old(self).counters
                    },
                    ..*old(self)
                }
            } else {
                *old(self)
            },
    {
        if self.enabled {
            self.counters.bytes = added(self.counters.bytes, n);
        }
    }

    /// Count frames admitted because they answer the user's input.
    pub fn note_paced_replies(&mut self, n: u64)
        ensures
            *final(self) == if old(self).enabled {
                RenderProf {
                    counters: Counters {
                        paced_replies: wrapped_sum(old(self).counters.paced_replies, n),
                        ..old(self).counters
                    },
                    ..*old(self)
                }
            } else {
                *old(self)
            },
    {
        if self.enabled {
            self.counters.paced_replies = added(self.counters.paced_replies, n);
        }
    }

    /// Count frames the pacer made wait for its window.
    pub fn note_paced_waits(&mut self, n: u64)
        ensures
            *final(self) == if old(self).enabled {
                RenderProf {
                    counters: Counters {
                        paced_waits: wrapped_sum(old(self).counters.paced_waits, n),
                        ..old(self).counters
                    },
                    ..*old(self)
                }
            } else {
                *old(self)
            },
    {
        if self.enabled {
            self.counters.paced_waits = added(self.counters.paced_waits, n);
        }
    }

    /// The hook of each loop iteration: a report when the counters are on and
    /// the window has elapsed.
    pub fn tick(&mut self, now: Moment) -> (report: Option<ProfReport>)
        ensures
            !old(self).enabled ==> report is None && *final(self) == *old(self),
            old(self).enabled ==> ticked(*old(self), now, *final(self), report),
    {
        if !self.enabled {
            return None;
        }
        self.tick_at(now)
    }

    /// Report and start over when the window has elapsed; the first tick starts
    /// the first window.
    pub fn tick_at(&mut self, now: Moment) -> (report: Option<ProfReport>)
        ensures
            ticked(*old(self), now, *final(self), report),
    {
        let start = match self.window_start {
            Some(s) => s,
            None => now,
        };
        self.window_start = Some(start);
        let elapsed: u128 = now.nanos.saturating_sub(start.nanos);
        if elapsed < WINDOW as u128 {
            return None;
        }
        let millis: u128 = elapsed / MILLI as u128;
        let window_ms: u64 = if millis > u64::MAX as u128 {
            u64::MAX
        } else {
            millis as u64
        };
        let report = ProfReport { counters: self.counters, window_ms };
        let on = self.enabled;
        *self = RenderProf::new(on);
        self.window_start = Some(now);
        Some(report)
    }
}

/// The outcome of a tick: before the window has elapsed it reports nothing and
/// keeps counting; after, it reports every counter and the whole milliseconds
/// elapsed, at most the largest `u64` of them, zeroes the counters and starts a
/// window.
pub open spec fn ticked(
    before: RenderProf,
    now: Moment,
    after: RenderProf,
    report: Option<ProfReport>,
) -> bool {
    let elapsed = elapsed_nanos(before.window_start, now);
    if elapsed < WINDOW {
        &&& report is None
        &&& after == (RenderProf {
            window_start: Some(
                match before.window_start {
                    Some(s) => s,
                    None => now,
                },
            ),
            ..before
        })
    } else {
        &&& report == Some(
            ProfReport {
                counters: before.counters,
                window_ms: min_of(elapsed / MILLI as int, u64::MAX as int) as u64,
            },
        )
        &&& after == (RenderProf {
            counters: zeroed(),
            window_start: Some(now),
            ..before
        })
    }
}

} // verus!
