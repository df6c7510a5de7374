//! What each step of the frame scheduler, the counters and the output queue does.
use vstd::prelude::*;

use crate::layout::TerminalId;
use crate::render_prof::{
    asks_for_counters, ticked, wrapped_sum, zeroed, Moment, ProfReport, RenderProf,
};
use crate::repaint::{
    admission, admitted, after_admit, chrome_raised, counted, fleet_raised, full_raised,
    interval_asked, untouched, withheld, PacerView, RepaintAccumulator, RepaintLevel,
};
use crate::stdout_writer::{
    contents, continues, count_small, flush_counted, flushed, given_back, joined_bytes, leaves,
    overflows, pool_size, recycled_after, shut, QueueView,
};
use crate::text::{decimal, trimmed};
use crate::text_laws::law_a_number_is_read_as_written;

verus! {

/// What each request raises: chrome to at least a chrome repaint, full to a full
/// one with the viewport cleared, the fleet to a fleet refresh, and nothing else.
pub proof fn law_each_request_raises_its_own(a: RepaintAccumulator)
    ensures
        a.level == RepaintLevel::Nothing ==> chrome_raised(a).level == RepaintLevel::Chrome,
        a.level != RepaintLevel::Nothing ==> chrome_raised(a).level == a.level,
        chrome_raised(a).viewport_was_cleared == a.viewport_was_cleared,
        chrome_raised(a).fleet_dirty == a.fleet_dirty,
        full_raised(a).level == RepaintLevel::Full,
        full_raised(a).viewport_was_cleared,
        full_raised(a).fleet_dirty == a.fleet_dirty,
        fleet_raised(a).level == a.level,
        fleet_raised(a).viewport_was_cleared == a.viewport_was_cleared,
        fleet_raised(a).fleet_dirty,
        untouched().level == RepaintLevel::Nothing,
        !untouched().viewport_was_cleared,
        !untouched().fleet_dirty,
{
}

/// The moment is before the deadline, if there is one.
pub open spec fn ahead_of(now: Moment, deadline: Option<Moment>) -> bool {
    deadline is Some && now.nanos < deadline->0.nanos
}

/// A frame is painted exactly when pacing is off, or it answers the user, or no
/// window is open; a painted one opens a window of the interval's length unless
/// pacing is off, a withheld one opens none, and a grace that has run out is
/// forgotten. The panes that are owed a paint stay owed.
pub proof fn law_a_frame_is_paced(p: PacerView, now: Moment)
    requires
        now.nanos + p.interval_ms * 1_000_000 <= u128::MAX,
    ensures
        admitted(p, now) <==> p.interval_ms == 0 || ahead_of(now, p.input_until) || !ahead_of(
            now,
            p.next_allowed,
        ),
        ({
            let after = after_admit(p, now);
            &&& after.interval_ms == p.interval_ms
            &&& after.pending == p.pending
            &&& p.interval_ms == 0 ==> after.next_allowed == p.next_allowed && after.input_until
                == p.input_until
            &&& p.interval_ms > 0 && admitted(p, now) ==> after.next_allowed is Some
                && after.next_allowed->0.nanos == now.nanos + p.interval_ms * 1_000_000
            &&& !admitted(p, now) ==> after.next_allowed == p.next_allowed
            &&& p.interval_ms > 0 && ahead_of(now, p.input_until) ==> after.input_until
                == p.input_until
            &&& p.interval_ms > 0 && !ahead_of(now, p.input_until) ==> after.input_until is None
        }),
{
}

/// A paint that answers the user counts as a reply and a withheld one as a wait;
/// any other counts as neither, and with the counters off nothing counts.
pub proof fn law_paced_frames_are_counted(prof: RenderProf, p: PacerView, now: Moment)
    ensures
        ({
            let after = counted(prof, admission(p, now));
            let reply = p.interval_ms > 0 && ahead_of(now, p.input_until);
            let wait = !admitted(p, now);
            &&& after.enabled == prof.enabled
            &&& after.window_start == prof.window_start
            &&& !prof.enabled || !(reply || wait) ==> after == prof
            &&& prof.enabled && reply ==> after.counters.paced_replies == wrapped_sum(
                prof.counters.paced_replies,
                1,
            ) && after.counters.paced_waits == prof.counters.paced_waits
            &&& prof.enabled && wait ==> after.counters.paced_waits == wrapped_sum(
                prof.counters.paced_waits,
                1,
            ) && after.counters.paced_replies == prof.counters.paced_replies
            &&& after.counters.frames == prof.counters.frames
            &&& after.counters.paints == prof.counters.paints
            &&& after.counters.bytes == prof.counters.bytes
        }),
{
}

/// A pane that is withheld comes last among those owed, unless it is owed
/// already; nothing else of the pacer changes.
pub proof fn law_a_withheld_pane_is_owed(p: PacerView, id: TerminalId)
    ensures
        p.pending.contains(id) ==> withheld(p, id) == p,
        !p.pending.contains(id) ==> withheld(p, id).pending == p.pending.push(id),
        withheld(p, id).interval_ms == p.interval_ms,
        withheld(p, id).next_allowed == p.next_allowed,
        withheld(p, id).input_until == p.input_until,
{
}

/// The interval is what the environment writes in decimal, 16 where it writes
/// nothing that can be read.
pub proof fn law_the_environment_sets_the_interval(value: &str, ms: u64)
    ensures
        interval_asked(None) == 16,
        trimmed(value@) == decimal(ms as nat) ==> interval_asked(Some(value)) == ms,
        trimmed(value@).len() == 0 ==> interval_asked(Some(value)) == 16,
        (exists|i: int|
            0 <= i < trimmed(value@).len() && !('0' <= #[trigger] trimmed(value@)[i] <= '9') && !(i
                == 0 && trimmed(value@)[i] == '+')) ==> interval_asked(Some(value)) == 16,
{
    law_a_number_is_read_as_written(ms, trimmed(value@));
    if trimmed(value@).len() == 0 {
        assert(trimmed(value@) =~= Seq::<char>::empty());
    }
}

/// A counter counts on and starts over past its largest number.
pub proof fn law_counters_wrap(a: u64, b: u64)
    ensures
        wrapped_sum(a, b) as int == (a + b) % 0x1_0000_0000_0000_0000,
{
}

/// Counters are asked for by any value but none, an empty one and `0`.
pub proof fn law_counters_are_asked_for(value: Seq<u8>)
    ensures
        !asks_for_counters(None),
        value.len() == 0 ==> !asks_for_counters(Some(value)),
        value.len() == 1 && value[0] == '0' as u8 ==> !asks_for_counters(Some(value)),
        value.len() >= 2 ==> asks_for_counters(Some(value)),
        value.len() == 1 && value[0] != '0' as u8 ==> asks_for_counters(Some(value)),
{
    if value.len() == 1 && value[0] == '0' as u8 {
        assert(value =~= seq![48u8]);
    }
}

/// A second after the last report, and not before, a tick reports every counter
/// and the whole milliseconds since, starts the counters over, and starts the
/// next second; the first tick only starts one.
pub proof fn law_a_report_covers_its_second(
    before: RenderProf,
    now: Moment,
    after: RenderProf,
    report: Option<ProfReport>,
)
    requires
        ticked(before, now, after, report),
    ensures
        report is Some <==> before.window_start is Some && now.nanos
            >= before.window_start->0.nanos + 1_000_000_000,
        report is Some ==> {
            let elapsed = now.nanos - before.window_start->0.nanos;
            let r = report->0;
            &&& r.counters == before.counters
            &&& r.window_ms < u64::MAX ==> r.window_ms * 1_000_000 <= elapsed < (r.window_ms + 1)
                * 1_000_000
            &&& after.counters == zeroed()
            &&& after.counters.frames == 0 && after.counters.bytes == 0
            &&& after.window_start == Some(now)
            &&& after.enabled == before.enabled
        },
        report is None ==> after.counters == before.counters && after.enabled == before.enabled,
        report is None && before.window_start is Some ==> after.window_start == before.window_start,
        before.window_start is None ==> after.window_start == Some(now),
{
}

/// A flush puts its bytes at the end of the queue, unless the queue would then
/// hold more than 256 KiB: then everything queued is dropped with them. The
/// spare buffers are taken either way.
pub proof fn law_a_flush_queues_or_drops(q: QueueView, chunk: Seq<u8>)
    requires
        q.wf(),
    ensures
        ({
            let after = flushed(q, chunk);
            let held = joined_bytes(q.chunks).len() + chunk.len();
            &&& overflows(q, chunk) <==> held > 262_144
            &&& held <= 262_144 ==> after.chunks == q.chunks.push(chunk) && after.bytes == held
            &&& held > 262_144 ==> after.chunks.len() == 0 && after.bytes == 0
            &&& after.spares.len() == 0
            &&& after.shutdown == q.shutdown
        }),
{
}

/// A flush counts once, with its bytes, where the counters are on.
pub proof fn law_a_flush_is_counted(prof: RenderProf, n: u64)
    ensures
        ({
            let after = flush_counted(prof, n);
            &&& !prof.enabled ==> after == prof
            &&& prof.enabled ==> after.counters.flushes == wrapped_sum(prof.counters.flushes, 1)
                && after.counters.bytes == wrapped_sum(prof.counters.bytes, n)
            &&& after.enabled == prof.enabled
            &&& after.window_start == prof.window_start
            &&& after.counters.frames == prof.counters.frames
            &&& after.counters.paints == prof.counters.paints
        }),
{
}

/// A pool takes what it is offered until it holds four, and never gives up what it
/// holds.
pub proof fn law_a_pool_holds_four(held: nat, more: nat)
    ensures
        held >= 4 ==> pool_size(held, more) == held,
        held < 4 && held + more <= 4 ==> pool_size(held, more) == held + more,
        held < 4 && held + more > 4 ==> pool_size(held, more) == 4,
{
}

/// Buffers of more than 64 KiB are not kept, all others are: they are counted one
/// by one.
pub proof fn law_small_buffers_are_kept(a: Seq<usize>, b: Seq<usize>, cap: usize)
    ensures
        count_small(a + b) == count_small(a) + count_small(b),
        cap <= 65_536 ==> count_small(seq![cap]) == 1,
        cap > 65_536 ==> count_small(seq![cap]) == 0,
        count_small(Seq::empty()) == 0,
    decreases b.len(),
{
    reveal_with_fuel(count_small, 2);
    assert(seq![cap].drop_last() =~= Seq::<usize>::empty());
    if b.len() == 0 {
        assert(a + b =~= a);
    } else {
        law_small_buffers_are_kept(a, b.drop_last(), cap);
        assert((a + b).drop_last() =~= a + b.drop_last());
        assert((a + b).last() == b.last());
    }
}

/// What goes back to a pool goes behind what it holds, emptied.
pub proof fn law_buffers_go_back_empty(pool: Seq<Seq<u8>>, more: nat, i: int)
    requires
        0 <= i < given_back(pool, more).len(),
    ensures
        given_back(pool, more).len() == pool_size(pool.len(), more),
        i < pool.len() ==> given_back(pool, more)[i] == pool[i],
        i >= pool.len() ==> given_back(pool, more)[i].len() == 0,
{
}

/// After a flush the sink holds what it took back, less the buffer that it fills
/// next; a dropped buffer stays with it if it is small and there is room.
pub proof fn law_a_flush_takes_one_buffer(held: nat, small: nat, overflow: bool, own_cap: usize)
    requires
        held <= 4,
    ensures
        ({
            let back = if held + small <= 4 {
                held + small
            } else {
                4
            };
            let left = if back > 0 {
                back - 1
            } else {
                0
            };
            recycled_after(held, small, overflow, own_cap) == (if overflow && own_cap <= 65_536 {
                left + 1
            } else {
                left
            })
        }),
{
}

/// Shutting down marks the queue and drops what is queued, and the writer leaves
/// a queue exactly when it is marked and empty.
pub proof fn law_shutting_down_drops_the_queue(q: QueueView)
    ensures
        shut(q).shutdown,
        shut(q).chunks.len() == 0,
        shut(q).bytes == 0,
        shut(q).spares == q.spares,
        leaves(q) <==> q.shutdown && q.chunks.len() == 0,
        continues(q, true),
{
}

/// Bytes are joined in the order of their buffers.
pub proof fn law_bytes_are_joined_in_order(a: Seq<Seq<u8>>, b: Seq<Seq<u8>>, chunk: Seq<u8>)
    ensures
        joined_bytes(a + b) == joined_bytes(a) + joined_bytes(b),
        joined_bytes(seq![chunk]) == chunk,
        joined_bytes(Seq::empty()) == Seq::<u8>::empty(),
    decreases b.len(),
{
    reveal_with_fuel(joined_bytes, 2);
    assert(seq![chunk].drop_last() =~= Seq::<Seq<u8>>::empty());
    assert(joined_bytes(seq![chunk]) =~= chunk);
    if b.len() == 0 {
        assert(a + b =~= a);
        assert(joined_bytes(a) + joined_bytes(b) =~= joined_bytes(a));
    } else {
        law_bytes_are_joined_in_order(a, b.drop_last(), chunk);
        assert((a + b).drop_last() =~= a + b.drop_last());
        assert((a + b).last() == b.last());
        assert(joined_bytes(a + b) =~= joined_bytes(a) + joined_bytes(b));
    }
}

/// The contents of a list of buffers are theirs, in order.
pub proof fn law_buffers_are_read_in_order(buffers: Seq<Vec<u8>>, k: int)
    requires
        0 <= k < buffers.len(),
    ensures
        contents(buffers).len() == buffers.len(),
        contents(buffers)[k] == buffers[k]@,
{
}

} // verus!
