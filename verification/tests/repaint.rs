use phux_core_logic::layout::TerminalId;
use phux_core_logic::render_prof::{enabled, Moment, RenderProf};
use phux_core_logic::repaint::{
    frame_interval, PaintPacer, Repaint, RepaintAccumulator, RepaintLevel, INPUT_GRACE,
};

fn pane(id: u32) -> TerminalId {
    TerminalId::Local { id }
}

fn at(nanos: u128) -> Moment {
    Moment { nanos }
}

fn ms(t: Moment, n: u64) -> Moment {
    Moment { nanos: t.nanos + u128::from(n) * 1_000_000 }
}

fn off() -> RenderProf {
    RenderProf::new(false)
}

/// The default interval, in nanoseconds.
fn interval() -> u128 {
    u128::from(frame_interval(None)) * 1_000_000
}

fn start() -> Moment {
    at(5_000_000_000)
}

#[test]
fn disabled_counters_stay_at_zero() {
    if enabled(None) {
        return;
    }
    let mut prof = off();
    let before = prof.counters.frames;
    prof.note_frames(5);
    assert_eq!(prof.counters.frames, before, "disabled counters must not move");
}

#[test]
fn a_sub_window_tick_does_not_reset_counters() {
    let mut prof = RenderProf::new(true);
    let now = start();
    prof.window_start = Some(now);
    prof.note_frames(3);
    assert_eq!(prof.tick_at(now), None);
    assert!(prof.counters.frames >= 3, "sub-window tick must not drain");
}

#[test]
fn a_full_window_reports_and_starts_over() {
    let mut prof = RenderProf::new(true);
    assert_eq!(prof.tick(start()), None);
    prof.note_frames(812);
    prof.note_paints(61);
    prof.note_skipped(751);
    prof.note_bar_composes(10);
    prof.note_layouts(3);
    prof.note_flushes(61);
    prof.note_bytes(48_213);
    prof.note_paced_replies(2);
    prof.note_paced_waits(7);
    assert_eq!(prof.tick(ms(start(), 999)), None);
    let report = prof.tick(ms(start(), 1000)).expect("the window has elapsed");
    assert_eq!(report.window_ms, 1000);
    assert_eq!(report.counters.frames, 812);
    assert_eq!(report.counters.paints, 61);
    assert_eq!(report.counters.skipped, 751);
    assert_eq!(report.counters.bar_composes, 10);
    assert_eq!(report.counters.layouts, 3);
    assert_eq!(report.counters.flushes, 61);
    assert_eq!(report.counters.bytes, 48_213);
    assert_eq!(report.counters.paced_replies, 2);
    assert_eq!(report.counters.paced_waits, 7);
    assert_eq!(prof.counters.frames, 0);
    assert_eq!(prof.tick(ms(start(), 1001)), None);
    let mut quiet = off();
    assert_eq!(quiet.tick(ms(start(), 5000)), None);
    assert_eq!(quiet.window_start, None);
}

#[test]
fn the_environment_turns_counters_on() {
    assert!(!enabled(None));
    assert!(!enabled(Some(b"")));
    assert!(!enabled(Some(b"0")));
    assert!(enabled(Some(b"1")));
    assert!(enabled(Some(b"00")));
}

#[test]
fn counters_wrap_around() {
    let mut prof = RenderProf::new(true);
    prof.note_bytes(u64::MAX);
    prof.note_bytes(3);
    assert_eq!(prof.counters.bytes, 2);
}

#[test]
fn the_first_frame_after_a_lull_paints_immediately() {
    let mut pacer = PaintPacer::default();
    let t0 = start();
    assert!(pacer.admits(t0, &mut off()), "nothing has painted; paint now");
    assert!(
        pacer.admits(ms(t0, 1000), &mut off()),
        "a frame after the window paints immediately"
    );
}

#[test]
fn frames_inside_the_window_are_refused_until_it_expires() {
    let mut pacer = PaintPacer::default();
    let t0 = start();
    assert!(pacer.admits(t0, &mut off()));
    assert!(
        !pacer.admits(at(t0.nanos + interval() / 2), &mut off()),
        "half a window in, the paint is withheld"
    );
    assert!(
        pacer.admits(at(t0.nanos + interval()), &mut off()),
        "the window expiring re-admits exactly once"
    );
}

#[test]
fn withheld_panes_deduplicate_and_drain_once() {
    let mut pacer = PaintPacer::default();
    assert!(pacer.admits(start(), &mut off()));
    for _ in 0..40 {
        pacer.withhold(pane(1));
    }
    pacer.withhold(pane(2));
    let owed = pacer.take_pending();
    assert_eq!(owed, vec![pane(1), pane(2)]);
    assert!(pacer.take_pending().is_empty(), "taking the debt clears it");
}

#[test]
fn an_idle_pacer_arms_no_deadline() {
    let mut pacer = PaintPacer::default();
    assert_eq!(pacer.deadline(), None, "nothing owed, nothing armed");
    let t0 = start();
    assert!(pacer.admits(t0, &mut off()));
    assert_eq!(pacer.deadline(), None, "a frame that painted owes no settle");
    pacer.withhold(pane(1));
    assert_eq!(
        pacer.deadline(),
        Some(at(t0.nanos + interval())),
        "a withheld pane arms the window's end"
    );
}

#[test]
fn input_in_flight_bypasses_a_window_that_would_otherwise_refuse() {
    let mut pacer = PaintPacer::default();
    let mut prof = RenderProf::new(true);
    let t0 = start();
    assert!(pacer.admits(t0, &mut prof));
    let mid = at(t0.nanos + interval() / 2);
    assert!(
        !pacer.admits(mid, &mut prof),
        "unsolicited output inside the window is still paced"
    );
    pacer.note_input(mid);
    assert!(
        pacer.admits(mid, &mut prof),
        "a frame answering the user must not wait for the window"
    );
    assert_eq!(prof.counters.paced_waits, 1);
    assert_eq!(prof.counters.paced_replies, 1);
}

#[test]
fn the_grace_covers_a_reply_split_across_frames() {
    let mut pacer = PaintPacer::default();
    let t0 = start();
    pacer.note_input(t0);
    assert!(pacer.admits(t0, &mut off()), "the first frame of the reply paints");
    assert!(
        pacer.admits(ms(t0, 1), &mut off()),
        "and so does the second, 1ms later, still inside the grace"
    );
    assert!(pacer.admits(ms(t0, 5), &mut off()), "and the third");
}

#[test]
fn the_input_grace_expires_and_pacing_resumes() {
    let mut pacer = PaintPacer::default();
    let t0 = start();
    pacer.note_input(t0);
    assert!(pacer.admits(t0, &mut off()), "the reply paints");
    let after_grace = at(t0.nanos + u128::from(INPUT_GRACE));
    assert!(
        pacer.admits(after_grace, &mut off()),
        "the grace has lapsed and so has the window opened by the reply"
    );
    assert!(
        !pacer.admits(at(after_grace.nanos + interval() / 2), &mut off()),
        "once the grace lapses the flood is paced again"
    );
}

#[test]
fn rearm_restarts_the_window_without_cancelling_the_grace() {
    let mut pacer = PaintPacer::default();
    let t0 = start();
    pacer.note_input(t0);
    pacer.rearm(t0);
    assert!(
        pacer.admits(ms(t0, 1), &mut off()),
        "the rest of the reply still bypasses the window"
    );
}

#[test]
fn a_full_repaint_discharges_every_withheld_pane() {
    let mut pacer = PaintPacer::default();
    assert!(pacer.admits(start(), &mut off()));
    pacer.withhold(pane(1));
    pacer.withhold(pane(2));
    pacer.clear_pending();
    assert!(pacer.take_pending().is_empty());
    assert_eq!(pacer.deadline(), None);
}

#[test]
fn a_zero_interval_paints_every_frame() {
    let mut pacer = PaintPacer::new(0);
    for _ in 0..3 {
        assert!(pacer.admits(start(), &mut off()));
    }
    pacer.withhold(pane(1));
    assert_eq!(pacer.deadline(), None, "no window was ever opened");
}

#[test]
fn the_environment_sets_the_interval() {
    assert_eq!(frame_interval(None), 16);
    assert_eq!(frame_interval(Some("0")), 0);
    assert_eq!(frame_interval(Some(" 33\n")), 33);
    assert_eq!(frame_interval(Some("+5")), 5);
    assert_eq!(frame_interval(Some("+")), 16);
    assert_eq!(frame_interval(Some("")), 16);
    assert_eq!(frame_interval(Some("-1")), 16);
    assert_eq!(frame_interval(Some("1 6")), 16);
    assert_eq!(frame_interval(Some("18446744073709551615")), u64::MAX);
    assert_eq!(frame_interval(Some("18446744073709551616")), 16);
}

fn painted(level: RepaintLevel, viewport_was_cleared: bool) -> Repaint {
    Repaint { level, viewport_was_cleared, fleet_dirty: false }
}

#[test]
fn levels_order_none_below_chrome_below_full() {
    assert!(RepaintLevel::Nothing < RepaintLevel::Chrome);
    assert!(RepaintLevel::Chrome < RepaintLevel::Full);
    assert_eq!(RepaintLevel::default(), RepaintLevel::Nothing);
}

#[test]
fn raise_is_monotone_and_order_independent() {
    let mut a = RepaintAccumulator::default();
    a.raise_full();
    a.raise_chrome();

    let mut b = RepaintAccumulator::default();
    b.raise_chrome();
    b.raise_full();

    assert_eq!(a, b);
    assert_eq!(a.drain(), painted(RepaintLevel::Full, true));
    assert_eq!(b.drain(), painted(RepaintLevel::Full, true));
}

#[test]
fn twenty_chrome_raises_collapse_into_one_chrome_drain() {
    let mut accum = RepaintAccumulator::default();
    for _ in 0..20 {
        accum.raise_chrome();
    }
    assert_eq!(accum.drain(), painted(RepaintLevel::Chrome, false));
    assert_eq!(accum.drain(), painted(RepaintLevel::Nothing, false));
}

#[test]
fn chrome_never_reports_a_cleared_viewport() {
    let mut accum = RepaintAccumulator::default();
    accum.raise_chrome();
    let drained = accum.drain();
    assert_eq!(drained.level, RepaintLevel::Chrome);
    assert!(!drained.viewport_was_cleared, "chrome paints in place; it clears nothing");
}

#[test]
fn untouched_accumulator_drains_to_none() {
    let mut accum = RepaintAccumulator::default();
    assert_eq!(accum.drain(), painted(RepaintLevel::Nothing, false));
}

#[test]
fn nine_fleet_raises_collapse_into_one_fleet_drain() {
    let mut accum = RepaintAccumulator::default();
    for _ in 0..9 {
        accum.raise_fleet();
    }
    let drained = accum.drain();
    assert!(drained.fleet_dirty, "nine raises must survive as one refresh");
    assert_eq!(
        drained.level,
        RepaintLevel::Nothing,
        "a fleet refresh is not itself a base-frame repaint level"
    );
    assert!(!accum.drain().fleet_dirty, "the fleet flag must not survive its drain");
}

#[test]
fn fleet_and_level_raises_compose_in_one_drain() {
    let mut accum = RepaintAccumulator::default();
    accum.raise_chrome();
    accum.raise_fleet();
    assert_eq!(
        accum.drain(),
        Repaint {
            level: RepaintLevel::Chrome,
            viewport_was_cleared: false,
            fleet_dirty: true,
        }
    );
}

#[test]
fn the_longest_interval_still_ends() {
    let mut prof = off();
    let mut pacer = PaintPacer::new(u64::MAX);
    let end = ms(start(), u64::MAX);
    assert!(pacer.admits(start(), &mut prof));
    assert!(!pacer.admits(at(u128::from(u64::MAX)), &mut prof));
    assert!(!pacer.admits(at(end.nanos - 1), &mut prof));
    pacer.withhold(pane(1));
    assert_eq!(pacer.deadline(), Some(end));
    assert!(pacer.admits(end, &mut prof));
    pacer.rearm(end);
    assert_eq!(pacer.deadline(), Some(ms(end, u64::MAX)));
}

#[test]
fn a_window_beyond_counting_reports_the_most_it_can() {
    let mut prof = RenderProf::new(true);
    assert!(prof.tick(at(0)).is_none());
    let report = prof.tick(at(u128::MAX)).unwrap();
    assert_eq!(report.window_ms, u64::MAX);
}
