//! When to repaint, and how much.
//!
//! Triggers raise a level during one loop iteration and the loop drains it
//! once, so any number of triggers is one paint at the highest level asked for.
//! The pacer does the same across iterations: frames that land inside one
//! interval of the last paint are withheld and settled together, except those
//! that answer the user.
use vstd::prelude::*;

use crate::layout::TerminalId;
use crate::render_prof::{wrapped_sum, Counters, Moment, RenderProf, MILLI};
use crate::text::{parse_u64, parsed_u64, trim, trimmed};

verus! {

/// How much of the frame a drained repaint must redraw, cheapest first.
#[derive(Debug, Default, Clone, Copy, PartialEq, Eq, PartialOrd, Ord, Structural)]
pub enum RepaintLevel {
    /// Nothing to do.
    #[default]
    Nothing,
    /// The sidebar strip and the status bar, in place.
    Chrome,
    /// The whole viewport, cleared and redrawn.
    Full,
}

/// The cost rank of a level.
pub open spec fn rank(level: RepaintLevel) -> int {
    match level {
        RepaintLevel::Nothing => 0,
        RepaintLevel::Chrome => 1,
        RepaintLevel::Full => 2,
    }
}

/// The more expensive of two levels.
pub open spec fn higher(a: RepaintLevel, b: RepaintLevel) -> RepaintLevel {
    if rank(a) >= rank(b) {
        a
    } else {
        b
    }
}

/// One iteration's accumulated repaint intent.
#[derive(Debug, Clone, Copy, PartialEq, Eq, Structural)]
pub struct RepaintAccumulator {
    pub level: RepaintLevel,
    /// A raised level clears the viewport, so painters must not trust their
    /// caches of it.
    pub viewport_was_cleared: bool,
    /// Something the agent-fleet dashboard shows has changed.
    pub fleet_dirty: bool,
}

/// The drained work of one iteration.
#[derive(Debug, Clone, Copy, PartialEq, Eq, Structural)]
pub struct Repaint {
    pub level: RepaintLevel,
    pub viewport_was_cleared: bool,
    pub fleet_dirty: bool,
}

/// Nothing raised.
pub open spec fn untouched() -> RepaintAccumulator {
    RepaintAccumulator {
        level: RepaintLevel::Nothing,
        viewport_was_cleared: false,
        fleet_dirty: false,
    }
}

/// The accumulator after a chrome repaint was asked for.
pub open spec fn chrome_raised(a: RepaintAccumulator) -> RepaintAccumulator {
    RepaintAccumulator { level: higher(a.level, RepaintLevel::Chrome), ..a }
}

/// The accumulator after a full repaint was asked for.
pub open spec fn full_raised(a: RepaintAccumulator) -> RepaintAccumulator {
    RepaintAccumulator {
        level: higher(a.level, RepaintLevel::Full),
        viewport_was_cleared: true,
        ..a
    }
}

/// The accumulator after a fleet refresh was asked for.
pub open spec fn fleet_raised(a: RepaintAccumulator) -> RepaintAccumulator {
    RepaintAccumulator { fleet_dirty: true, ..a }
}

impl Default for RepaintAccumulator {
    fn default() -> (a: RepaintAccumulator)
        ensures
            a == untouched(),
    {
        RepaintAccumulator {
            level: RepaintLevel::Nothing,
            viewport_was_cleared: false,
            fleet_dirty: false,
        }
    }
}

impl RepaintAccumulator {
    /// The viewport counts as cleared exactly when a full repaint was raised.
    pub open spec fn wf(self) -> bool {
        self.viewport_was_cleared <==> self.level == RepaintLevel::Full
    }

    /// Ask for an in-place chrome repaint.
    pub fn raise_chrome(&mut self)
        ensures
            *final(self) == chrome_raised(*old(self)),
            old(self).wf() ==> final(self).wf(),
    {
        if let RepaintLevel::Nothing = self.level {
            self.level = RepaintLevel::Chrome;
        }
    }

    /// Ask for a full-viewport repaint.
    pub fn raise_full(&mut self)
        ensures
            *final(self) == full_raised(*old(self)),
            final(self).wf(),
    {
        self.level = RepaintLevel::Full;
        self.viewport_was_cleared = true;
    }

    /// Ask for the agent-fleet dashboard to be projected anew.
    pub fn raise_fleet(&mut self)
        ensures
            *final(self) == fleet_raised(*old(self)),
            old(self).wf() ==> final(self).wf(),
    {
        self.fleet_dirty = true;
    }

    /// Take the accumulated work and start over.
    pub fn drain(&mut self) -> (work: Repaint)
        ensures
            work == (Repaint {
                level: old(self).level,
                viewport_was_cleared: old(self).viewport_was_cleared,
                fleet_dirty: old(self).fleet_dirty,
            }),
            *final(self) == untouched(),
    {
        let work = Repaint {
            level: self.level,
            viewport_was_cleared: self.viewport_was_cleared,
            fleet_dirty: self.fleet_dirty,
        };
        *self = RepaintAccumulator::default();
        work
    }
}

/// A raise never lowers the level and never takes back what was raised.
pub proof fn law_raising_is_monotone(a: RepaintAccumulator)
    ensures
        rank(a.level) <= rank(chrome_raised(a).level),
        rank(a.level) <= rank(full_raised(a).level),
        rank(a.level) <= rank(fleet_raised(a).level),
        a.viewport_was_cleared ==> chrome_raised(a).viewport_was_cleared && full_raised(
            a,
        ).viewport_was_cleared && fleet_raised(a).viewport_was_cleared,
        a.fleet_dirty ==> chrome_raised(a).fleet_dirty && full_raised(a).fleet_dirty
            && fleet_raised(a).fleet_dirty,
{
}

/// Raising again changes nothing.
pub proof fn law_raising_is_idempotent(a: RepaintAccumulator)
    ensures
        chrome_raised(chrome_raised(a)) == chrome_raised(a),
        full_raised(full_raised(a)) == full_raised(a),
        fleet_raised(fleet_raised(a)) == fleet_raised(a),
{
}

/// The order of raises does not matter.
pub proof fn law_raises_commute(a: RepaintAccumulator)
    ensures
        chrome_raised(full_raised(a)) == full_raised(chrome_raised(a)),
        chrome_raised(fleet_raised(a)) == fleet_raised(chrome_raised(a)),
        full_raised(fleet_raised(a)) == fleet_raised(full_raised(a)),
{
}

/// The default floor on the gap between composited frames, in milliseconds.
pub const DEFAULT_FRAME_INTERVAL_MS: u64 = 16;

/// How long after an input batch output still counts as a reply to it, in
/// nanoseconds.
pub const INPUT_GRACE: u64 = 20_000_000;

/// The pacing floor that the environment's value asks for: a whole number of
/// milliseconds, spaces around it ignored; the default for anything else.
pub open spec fn interval_asked(value: Option<&str>) -> u64 {
    match value {
        Some(raw) => match parsed_u64(trimmed(raw@)) {
            Some(ms) => ms,
            None => DEFAULT_FRAME_INTERVAL_MS,
        },
        None => DEFAULT_FRAME_INTERVAL_MS,
    }
}

/// The pacing floor in milliseconds, from the environment's value. Zero turns
/// pacing off.
pub fn frame_interval(value: Option<&str>) -> (ms: u64)
    ensures
        ms == interval_asked(value),
{
    match value {
        Some(raw) => match parse_u64(&trim(raw)) {
            Some(ms) => ms,
            None => DEFAULT_FRAME_INTERVAL_MS,
        },
        None => DEFAULT_FRAME_INTERVAL_MS,
    }
}

/// The frame-rate governor for pane output.
#[derive(Debug, PartialEq, Eq)]
pub struct PaintPacer {
    /// The pacing floor, in milliseconds.
    interval_ms: u64,
    /// The earliest the next frame may be emitted; nothing has painted yet
    /// while it is `None`.
    next_allowed: Option<Moment>,
    /// Panes whose paint was withheld.
    pending: Vec<TerminalId>,
    /// Until when output counts as a reply to the user.
    input_until: Option<Moment>,
}

/// The mathematical content of a [`PaintPacer`].
#[verifier::ext_equal]
pub struct PacerView {
    pub interval_ms: u64,
    pub next_allowed: Option<Moment>,
    pub pending: Seq<TerminalId>,
    pub input_until: Option<Moment>,
}

impl View for PaintPacer {
    type V = PacerView;

    closed spec fn view(&self) -> PacerView {
        PacerView {
            interval_ms: self.interval_ms,
            next_allowed: self.next_allowed,
            pending: self.pending@,
            input_until: self.input_until,
        }
    }
}

/// `now` is before the deadline, if there is one.
pub open spec fn is_before(now: Moment, deadline: Option<Moment>) -> bool {
    match deadline {
        Some(d) => now.nanos < d.nanos,
        None => false,
    }
}

/// The end of the window that a paint at `now` opens.
pub open spec fn window_end(p: PacerView, now: Moment) -> Moment {
    Moment { nanos: (now.nanos + p.interval_ms * MILLI) as u128 }
}

/// How a frame fares.
pub enum Admission {
    /// It is painted because pacing is off.
    Unpaced,
    /// It is painted because it answers the user.
    Reply,
    /// It waits for the window to end.
    Wait,
    /// It is painted because no window is open.
    Open,
}

/// How a frame at `now` fares.
pub open spec fn admission(p: PacerView, now: Moment) -> Admission {
    if p.interval_ms == 0 {
        Admission::Unpaced
    } else if is_before(now, p.input_until) {
        Admission::Reply
    } else if is_before(now, p.next_allowed) {
        Admission::Wait
    } else {
        Admission::Open
    }
}

/// The frame is painted.
pub open spec fn admitted(p: PacerView, now: Moment) -> bool {
    !(admission(p, now) is Wait)
}

/// The pacer after a frame asked to be painted at `now`: a paint opens a window,
/// and a grace that has run out is forgotten.
pub open spec fn after_admit(p: PacerView, now: Moment) -> PacerView {
    match admission(p, now) {
        Admission::Unpaced => p,
        Admission::Reply => PacerView { next_allowed: Some(window_end(p, now)), ..p },
        Admission::Wait => PacerView { input_until: None, ..p },
        Admission::Open => PacerView {
            input_until: None,
            next_allowed: Some(window_end(p, now)),
            ..p
        },
    }
}

/// What the admission counts.
pub open spec fn counted(prof: RenderProf, how: Admission) -> RenderProf {
    if !prof.enabled {
        prof
    } else {
        match how {
            Admission::Reply => RenderProf {
                counters: Counters {
                    paced_replies: wrapped_sum(prof.counters.paced_replies, 1),
                    ..prof.counters
                },
                ..prof
            },
            Admission::Wait => RenderProf {
                counters: Counters {
                    paced_waits: wrapped_sum(prof.counters.paced_waits, 1),
                    ..prof.counters
                },
                ..prof
            },
            _ => prof,
        }
    }
}

/// The pacer after `id` owes a settle paint.
pub open spec fn withheld(p: PacerView, id: TerminalId) -> PacerView {
    if p.pending.contains(id) {
        p
    } else {
        PacerView { pending: p.pending.push(id), ..p }
    }
}

fn reached(now: Moment, deadline: Option<Moment>) -> (b: bool)
    ensures
        b == !is_before(now, deadline),
{
    match deadline {
        Some(d) => now.nanos >= d.nanos,
        None => true,
    }
}

impl PaintPacer {
    /// A pacer that has painted nothing yet, with a floor of `interval_ms`
    /// milliseconds between frames.
    pub fn new(interval_ms: u64) -> (p: PaintPacer)
        ensures
            p@ == (PacerView {
                interval_ms,
                next_allowed: None,
                pending: Seq::empty(),
                input_until: None,
            }),
            p.wf(),
    {
        let p = PaintPacer {
            interval_ms,
            next_allowed: None,
            pending: Vec::new(),
            input_until: None,
        };
        proof {
            assert(p@.pending =~= Seq::<TerminalId>::empty());
        }
        p
    }

    /// No pane is owed twice.
    pub open spec fn wf(self) -> bool {
        self@.pending.no_duplicates()
    }

    /// The window that opens at `now` ends within the clock's range.
    pub open spec fn in_range(self, now: Moment) -> bool {
        now.nanos + self@.interval_ms * MILLI <= u128::MAX
    }

    /// The end of the window that opens at `now`.
    fn end_of_window(&self, now: Moment) -> (end: Moment)
        requires
            self.in_range(now),
        ensures
            end == window_end(self@, now),
    {
        proof {
            assert(0 <= self.interval_ms * MILLI <= u64::MAX * MILLI) by (nonlinear_arith)
                requires
                    0 <= self.interval_ms <= u64::MAX,
                    0 <= MILLI,
            ;
        }
        Moment { nanos: now.nanos + self.interval_ms as u128 * MILLI as u128 }
    }

    /// Whether a frame may be painted at `now`; if so, the next window opens.
    pub fn admits(&mut self, now: Moment, prof: &mut RenderProf) -> (yes: bool)
        requires
            admitted(old(self)@, now) ==> old(self).in_range(now),
        ensures
            yes == admitted(old(self)@, now),
            final(self)@ == after_admit(old(self)@, now),
            *final(prof) == counted(*old(prof), admission(old(self)@, now)),
            old(self).wf() ==> final(self).wf(),
    {
        if self.interval_ms == 0 {
            return true;
        }
        if !reached(now, self.input_until) {
            prof.note_paced_replies(1);
            self.next_allowed = Some(self.end_of_window(now));
            return true;
        }
        self.input_until = None;
        if !reached(now, self.next_allowed) {
            prof.note_paced_waits(1);
            return false;
        }
        self.next_allowed = Some(self.end_of_window(now));
        true
    }

    /// The user just sent input: output for a while answers it.
    pub fn note_input(&mut self, now: Moment)
        requires
            now.nanos + INPUT_GRACE <= u128::MAX,
        ensures
            final(self)@ == (PacerView {
                input_until: Some(Moment { nanos: (now.nanos + INPUT_GRACE) as u128 }),
                ..old(self)@
            }),
            old(self).wf() ==> final(self).wf(),
    {
        self.input_until = Some(Moment { nanos: now.nanos + INPUT_GRACE as u128 });
    }

    /// A frame was painted at `now`: the window starts there. The input grace is
    /// left alone.
    pub fn rearm(&mut self, now: Moment)
        requires
            old(self).in_range(now),
        ensures
            final(self)@ == (PacerView {
                next_allowed: Some(window_end(old(self)@, now)),
                ..old(self)@
            }),
            old(self).wf() ==> final(self).wf(),
    {
        self.next_allowed = Some(self.end_of_window(now));
    }

    /// `id` owes a settle paint.
    pub fn withhold(&mut self, id: TerminalId)
        ensures
            final(self)@ == withheld(old(self)@, id),
            old(self).wf() ==> final(self).wf(),
    {
        let mut i: usize = 0;
        while i < self.pending.len()
            invariant
                i <= self.pending.len(),
                *self == *old(self),
                forall|j: int| 0 <= j < i ==> self.pending@[j] != id,
            decreases self.pending.len() - i,
        {
            if self.pending[i] == id {
                proof {
                    assert(self@.pending.contains(id));
                }
                return;
            }
            i = i + 1;
        }
        self.pending.push(id);
    }

    /// When to wake to settle withheld panes; never while nothing is owed.
    pub fn deadline(&self) -> (at: Option<Moment>)
        ensures
            at == (if self@.pending.len() == 0 {
                None
            } else {
                self@.next_allowed
            }),
    {
        if self.pending.len() == 0 {
            None
        } else {
            self.next_allowed
        }
    }

    /// Take the panes owed a settle paint.
    pub fn take_pending(&mut self) -> (owed: Vec<TerminalId>)
        ensures
            owed@ == old(self)@.pending,
            final(self)@ == (PacerView { pending: Seq::empty(), ..old(self)@ }),
            final(self).wf(),
    {
        let mut owed: Vec<TerminalId> = Vec::new();
        core::mem::swap(&mut owed, &mut self.pending);
        proof {
            assert(self@.pending =~= Seq::<TerminalId>::empty());
        }
        owed
    }

    /// A full repaint has redrawn every pane: nothing is owed any more.
    pub fn clear_pending(&mut self)
        ensures
            final(self)@ == (PacerView { pending: Seq::empty(), ..old(self)@ }),
            final(self).wf(),
    {
        self.pending.clear();
    }
}

impl Default for PaintPacer {
    fn default() -> (p: PaintPacer)
        ensures
            p@ == (PacerView {
                interval_ms: DEFAULT_FRAME_INTERVAL_MS,
                next_allowed: None,
                pending: Seq::empty(),
                input_until: None,
            }),
            p.wf(),
    {
        PaintPacer::new(DEFAULT_FRAME_INTERVAL_MS)
    }
}

/// Pacing adds no latency to a quiet screen: the first frame ever, and the first
/// after a window has ended, is painted at once.
pub proof fn law_the_first_frame_after_a_lull_paints(p: PacerView, now: Moment)
    requires
        !is_before(now, p.next_allowed),
    ensures
        admitted(p, now),
{
}

/// Unsolicited frames are at least an interval apart: after a paint, a frame
/// without a grace is refused until the window has ended, and admitted then.
pub proof fn law_unsolicited_frames_keep_their_distance(p: PacerView, first: Moment, next: Moment)
    requires
        p.interval_ms > 0,
        first.nanos + p.interval_ms * MILLI <= u128::MAX,
        admitted(p, first),
        !is_before(next, after_admit(p, first).input_until),
    ensures
        admitted(after_admit(p, first), next) <==> next.nanos >= first.nanos + p.interval_ms
            * MILLI,
{
    assert(p.interval_ms * MILLI >= 0) by (nonlinear_arith)
        requires
            p.interval_ms >= 0,
            MILLI >= 0,
    ;
}

/// A reply is never paced, in however many frames it arrives: within the grace
/// every frame is admitted and the grace goes on.
pub proof fn law_a_reply_is_not_paced(p: PacerView, now: Moment)
    requires
        is_before(now, p.input_until),
    ensures
        admitted(p, now),
        after_admit(p, now).input_until == p.input_until,
{
}

/// The grace expires: past it, a frame is judged by the window alone.
pub proof fn law_the_grace_expires(p: PacerView, now: Moment)
    requires
        p.interval_ms > 0,
        !is_before(now, p.input_until),
    ensures
        admitted(p, now) <==> !is_before(now, p.next_allowed),
        after_admit(p, now).input_until is None,
{
}

/// With an interval of zero every frame is painted and nothing is kept.
pub proof fn law_a_zero_interval_disables_pacing(p: PacerView, now: Moment)
    requires
        p.interval_ms == 0,
    ensures
        admitted(p, now),
        after_admit(p, now) == p,
{
}

/// Withholding the same pane again owes nothing more, and no pane is owed twice.
pub proof fn law_withheld_panes_are_owed_once(p: PacerView, id: TerminalId)
    requires
        p.pending.no_duplicates(),
    ensures
        withheld(p, id).pending.contains(id),
        withheld(p, id).pending.no_duplicates(),
        withheld(withheld(p, id), id) == withheld(p, id),
{
    if !p.pending.contains(id) {
        let after = p.pending.push(id);
        assert(after[after.len() - 1] == id);
    }
}

} // verus!
