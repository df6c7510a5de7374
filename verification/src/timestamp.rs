//! Points in time and spans between them.
use vstd::prelude::*;

verus! {

/// The last second of the calendar: the end of year 262142.
pub const LAST_SECOND: i64 = 8210266876799;

/// A point in time, in UTC.
#[derive(Debug, Clone, Copy, PartialEq, Eq, Structural)]
pub struct Timestamp {
    /// Seconds since the Unix epoch.
    pub secs: i64,
    /// Nanoseconds into that second; a leap second has more than a second of
    /// them.
    pub nanos: u32,
}

/// A signed span of time: `secs` seconds and `nanos` nanoseconds onward.
#[derive(Debug, Clone, Copy, PartialEq, Eq, Structural)]
pub struct Span {
    pub secs: i64,
    /// Below one second, also where `secs` is negative.
    pub nanos: u32,
}

/// `a` is earlier than `b`.
pub open spec fn earlier(a: Timestamp, b: Timestamp) -> bool {
    a.secs < b.secs || (a.secs == b.secs && a.nanos < b.nanos)
}

/// The earlier of two points in time.
pub open spec fn earlier_of(a: Timestamp, b: Timestamp) -> Timestamp {
    if earlier(b, a) {
        b
    } else {
        a
    }
}

/// The point as nanoseconds since the epoch.
pub open spec fn epoch_nanos(t: Timestamp) -> int {
    t.secs * 1_000_000_000 + t.nanos
}

/// The length of the span, a negative one counted as none.
pub open spec fn forward_nanos(d: Span) -> int {
    if d.secs < 0 {
        0
    } else {
        d.secs * 1_000_000_000 + d.nanos
    }
}

/// A point within a leap second stays within it when moved by `d`.
pub open spec fn stays_in_leap_second(t: Timestamp, d: Span) -> bool {
    !t.is_ordinary() && d.secs == 0 && t.nanos + d.nanos < 2_000_000_000
}

/// The second that `t` is in after it moved forward by `d`, a negative span
/// counting as none. A span that leads out of a leap second is counted from the
/// second that the leap second follows.
pub open spec fn moved_secs(t: Timestamp, d: Span) -> int {
    if d.secs < 0 || stays_in_leap_second(t, d) {
        t.secs as int
    } else if t.nanos as int % 1_000_000_000 + d.nanos >= 1_000_000_000 {
        t.secs + d.secs + 1
    } else {
        t.secs + d.secs
    }
}

/// The nanoseconds into that second.
pub open spec fn moved_nanos(t: Timestamp, d: Span) -> int {
    if d.secs < 0 {
        t.nanos as int
    } else if stays_in_leap_second(t, d) {
        t.nanos + d.nanos
    } else {
        (t.nanos as int % 1_000_000_000 + d.nanos) % 1_000_000_000
    }
}

/// `t` moved forward by `d`, a negative span counting as none.
pub open spec fn moved(t: Timestamp, d: Span) -> Timestamp {
    Timestamp { secs: moved_secs(t, d) as i64, nanos: moved_nanos(t, d) as u32 }
}

impl Timestamp {
    /// Not within a leap second.
    pub open spec fn is_ordinary(self) -> bool {
        self.nanos < 1_000_000_000
    }

    /// Within a second or a leap second.
    pub open spec fn wf(self) -> bool {
        self.nanos < 2_000_000_000
    }

    /// Whether `self` is earlier than `other`.
    pub fn is_before(self, other: Timestamp) -> (b: bool)
        ensures
            b == earlier(self, other),
    {
        self.secs < other.secs || (self.secs == other.secs && self.nanos < other.nanos)
    }

    /// The earlier of the two.
    pub fn earliest(self, other: Timestamp) -> (t: Timestamp)
        ensures
            t == earlier_of(self, other),
    {
        if other.is_before(self) {
            other
        } else {
            self
        }
    }

    /// The span can be added without leaving the calendar.
    pub open spec fn has_room_for(self, d: Span) -> bool {
        moved_secs(self, d) <= LAST_SECOND
    }

    /// Whether the span can be added without leaving the calendar.
    pub fn can_add(self, d: Span) -> (b: bool)
        requires
            self.wf(),
            d.nanos < 1_000_000_000,
        ensures
            b == self.has_room_for(d),
    {
        if d.secs < 0 || (self.nanos >= 1_000_000_000 && d.secs == 0 && self.nanos + d.nanos
            < 2_000_000_000) {
            return self.secs <= LAST_SECOND;
        }
        let carry: i64 = if self.nanos % 1_000_000_000 + d.nanos >= 1_000_000_000 {
            1
        } else {
            0
        };
        match self.secs.checked_add(d.secs) {
            Some(sum) => sum <= LAST_SECOND - carry,
            None => false,
        }
    }

    /// This point moved forward by `d`, a negative span counting as none.
    pub fn plus(self, d: Span) -> (t: Timestamp)
        requires
            self.wf(),
            d.nanos < 1_000_000_000,
            self.has_room_for(d),
        ensures
            t == moved(self, d),
            t.wf(),
    {
        if d.secs < 0 {
            return self;
        }
        if self.nanos >= 1_000_000_000 && d.secs == 0 && self.nanos + d.nanos < 2_000_000_000 {
            return Timestamp { secs: self.secs, nanos: self.nanos + d.nanos };
        }
        let nanos: u32 = self.nanos % 1_000_000_000 + d.nanos;
        if nanos >= 1_000_000_000 {
            Timestamp { secs: self.secs + d.secs + 1, nanos: nanos - 1_000_000_000 }
        } else {
            Timestamp { secs: self.secs + d.secs, nanos }
        }
    }
}

/// Outside leap seconds a point moves by exactly the span's length.
pub proof fn law_an_ordinary_time_moves_by_the_span(t: Timestamp, d: Span)
    requires
        t.is_ordinary(),
        d.nanos < 1_000_000_000,
        t.has_room_for(d),
    ensures
        moved(t, d).is_ordinary(),
        epoch_nanos(moved(t, d)) == epoch_nanos(t) + forward_nanos(d),
{
}

/// Moving forward never leads back.
pub proof fn law_moving_forward_never_leads_back(t: Timestamp, d: Span)
    requires
        t.wf(),
        d.nanos < 1_000_000_000,
        t.has_room_for(d),
    ensures
        !earlier(moved(t, d), t),
{
}

/// A negative span moves nothing; any other moves an ordinary time by its
/// seconds and nanoseconds, and has room exactly where the sum is no later than
/// the last second of the calendar.
pub proof fn law_a_span_counts_forward(t: Timestamp, d: Span)
    requires
        t.nanos < 1_000_000_000,
        d.nanos < 1_000_000_000,
    ensures
        d.secs < 0 ==> moved(t, d) == t,
        d.secs < 0 ==> (t.has_room_for(d) <==> t.secs <= 8_210_266_876_799),
        d.secs >= 0 ==> (t.has_room_for(d) <==> t.secs * 1_000_000_000 + t.nanos + d.secs
            * 1_000_000_000 + d.nanos < 8_210_266_876_800 * 1_000_000_000),
        d.secs >= 0 && t.has_room_for(d) ==> moved(t, d).secs * 1_000_000_000 + moved(t, d).nanos
            == t.secs * 1_000_000_000 + t.nanos + d.secs * 1_000_000_000 + d.nanos,
        d.secs >= 0 && t.has_room_for(d) ==> moved(t, d).nanos < 1_000_000_000,
{
}

/// A point within a leap second stays in it while the span does; a span that
/// leads out of it is counted as from the second that it follows.
pub proof fn law_a_span_leads_out_of_a_leap_second(t: Timestamp, d: Span)
    requires
        1_000_000_000 <= t.nanos < 2_000_000_000,
        d.nanos < 1_000_000_000,
        d.secs >= 0,
        t.has_room_for(d),
    ensures
        d.secs == 0 && t.nanos + d.nanos < 2_000_000_000 ==> moved(t, d).secs == t.secs && moved(
            t,
            d,
        ).nanos == t.nanos + d.nanos,
        d.secs > 0 || t.nanos + d.nanos >= 2_000_000_000 ==> moved(t, d) == moved(
            Timestamp { secs: t.secs, nanos: (t.nanos - 1_000_000_000) as u32 },
            d,
        ),
{
}

/// Of two points in time the earlier is the one in the earlier second, or earlier
/// in the same.
pub proof fn law_the_earlier_comes_first(a: Timestamp, b: Timestamp)
    ensures
        a.secs < b.secs ==> earlier(a, b) && !earlier(b, a),
        a.secs == b.secs ==> (earlier(a, b) <==> a.nanos < b.nanos),
        earlier(a, b) ==> earlier_of(a, b) == a && earlier_of(b, a) == a,
        !earlier(a, b) && !earlier(b, a) ==> earlier_of(a, b) == a,
{
}

} // verus!
