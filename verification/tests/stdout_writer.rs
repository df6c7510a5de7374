use phux_core_logic::render_prof::RenderProf;
use phux_core_logic::stdout_writer::{
    empty_queue, give_back, give_back_sized, goes_on, next_step, shut_down, QueueState, StdoutSink,
    WriterStep, CAP_BYTES, SPARE_MAX_BYTES, SPARE_POOL,
};

fn off() -> RenderProf {
    RenderProf::new(false)
}

fn written(q: &mut QueueState) -> Vec<u8> {
    let mut out = Vec::new();
    while let WriterStep::Write { batch, closing } = next_step(q) {
        for (i, chunk) in batch.iter().enumerate() {
            assert!(i == 0 || goes_on(q, closing));
            out.extend_from_slice(chunk);
        }
        give_back(q, batch);
    }
    out
}

#[test]
fn flush_does_not_block_on_a_slow_sink() {
    // The writer never takes a step while twenty frames are flushed: every flush
    // still ships at once, and the writer finds all of them in order.
    let mut sink = StdoutSink::new();
    let mut q = empty_queue();
    let mut expected = Vec::new();
    for i in 0..20u32 {
        let frame = format!("frame-{i}\n");
        sink.write(frame.as_bytes());
        expected.extend_from_slice(frame.as_bytes());
        assert!(sink.flush(&mut q, &mut off()));
    }
    assert_eq!(q.chunks.len(), 20);
    assert_eq!(written(&mut q), expected);
}

#[test]
fn flush_never_blocks_and_ships_in_order() {
    let mut sink = StdoutSink::new();
    let mut q = empty_queue();
    for i in 0..5u8 {
        sink.write(&[i]);
        assert!(sink.flush(&mut q, &mut off()));
    }
    assert!(!sink.needs_resync);
    assert_eq!(written(&mut q), vec![0, 1, 2, 3, 4]);
}

#[test]
fn overflow_drops_backlog_and_sets_resync() {
    let mut sink = StdoutSink { needs_resync: false, pending: Vec::new(), recycled: Vec::new() };
    let mut q = empty_queue();
    sink.write(&vec![0u8; CAP_BYTES - 1]);
    sink.flush(&mut q, &mut off());
    assert!(!sink.needs_resync);
    assert_eq!(q.chunks.len(), 1);
    sink.write(&[1u8, 2, 3]);
    sink.flush(&mut q, &mut off());
    assert!(sink.needs_resync);
    assert!(q.chunks.is_empty(), "stale backlog dropped on overflow");
    assert_eq!(q.bytes, 0);
}

#[test]
fn a_backlog_of_exactly_the_cap_is_kept() {
    let mut sink = StdoutSink::new();
    let mut q = empty_queue();
    sink.write(&vec![7u8; CAP_BYTES - 3]);
    sink.flush(&mut q, &mut off());
    sink.write(&[1u8, 2, 3]);
    sink.flush(&mut q, &mut off());
    assert!(!sink.needs_resync);
    assert_eq!(q.bytes, CAP_BYTES);
    assert_eq!(q.chunks.len(), 2);
}

#[test]
fn a_flush_refills_a_buffer_the_writer_returned() {
    let mut sink = StdoutSink::new();
    let mut q = empty_queue();
    sink.write(&vec![b'x'; 4096]);
    sink.flush(&mut q, &mut off());
    assert_eq!(written(&mut q).len(), 4096);
    assert_eq!(q.spare.len(), 1);
    sink.write(b"second frame");
    sink.flush(&mut q, &mut off());
    assert!(
        sink.pending.capacity() >= 4096,
        "flush must refill a recycled buffer, not allocate a new one (capacity {})",
        sink.pending.capacity()
    );
}

#[test]
fn oversized_buffers_are_not_recycled() {
    let mut q = empty_queue();
    q.spare.push(Vec::with_capacity(SPARE_MAX_BYTES + 1));
    let mut sink = StdoutSink { needs_resync: false, pending: Vec::new(), recycled: Vec::new() };
    StdoutSink::reclaim(&mut sink.recycled, &mut q);
    assert!(sink.recycled.is_empty(), "an oversized buffer must be dropped, not pooled");
    assert!(q.spare.is_empty());
}

#[test]
fn the_pools_are_bounded() {
    let mut q = empty_queue();
    let batch: Vec<Vec<u8>> = (0..9).map(|_| vec![1u8, 2]).collect();
    give_back(&mut q, batch);
    assert_eq!(q.spare.len(), SPARE_POOL);
    assert!(q.spare.iter().all(Vec::is_empty));
    let mut recycled = vec![Vec::new(), Vec::new()];
    StdoutSink::reclaim(&mut recycled, &mut q);
    assert_eq!(recycled.len(), SPARE_POOL);
    assert!(q.spare.is_empty());
}

#[test]
fn pool_sizes_follow_the_capacities() {
    let mut q = empty_queue();
    q.spare = vec![vec![1], vec![2], vec![3]];
    let mut recycled = Vec::new();
    StdoutSink::reclaim_sized(&mut recycled, &mut q, &vec![8, SPARE_MAX_BYTES + 1, 8]);
    assert_eq!(recycled.len(), 2);
    assert!(recycled.iter().all(Vec::is_empty));
}

#[test]
fn empty_flush_is_a_noop() {
    let mut sink = StdoutSink::new();
    let mut q = empty_queue();
    let mut prof = RenderProf::new(true);
    assert!(!sink.flush(&mut q, &mut prof));
    assert!(!sink.needs_resync);
    assert!(q.chunks.is_empty());
    assert_eq!(prof.counters.flushes, 0);
}

#[test]
fn flushes_are_counted() {
    let mut sink = StdoutSink::new();
    let mut q = empty_queue();
    let mut prof = RenderProf::new(true);
    assert_eq!(sink.write(b"abc"), 3);
    sink.write(b"de");
    sink.flush(&mut q, &mut prof);
    assert_eq!(prof.counters.flushes, 1);
    assert_eq!(prof.counters.bytes, 5);
}

#[test]
fn the_writer_waits_writes_and_leaves() {
    let mut q = empty_queue();
    assert!(matches!(next_step(&mut q), WriterStep::Wait));
    let mut sink = StdoutSink::new();
    sink.write(b"frame");
    sink.flush(&mut q, &mut off());
    assert!(matches!(next_step(&mut q), WriterStep::Write { .. }));
    assert_eq!(q.bytes, 0);
    sink.write(b"stale");
    sink.flush(&mut q, &mut off());
    shut_down(&mut q);
    assert!(matches!(next_step(&mut q), WriterStep::Exit));
}

#[test]
fn once_told_to_leave_the_writer_finishes_one_buffer_at_most() {
    let mut q = empty_queue();
    let mut sink = StdoutSink::new();
    for frame in [b"one", b"two", b"six"] {
        sink.write(frame);
        sink.flush(&mut q, &mut off());
    }
    let (batch, closing) = match next_step(&mut q) {
        WriterStep::Write { batch, closing } => (batch, closing),
        other => panic!("{other:?}"),
    };
    assert_eq!(batch, vec![b"one".to_vec(), b"two".to_vec(), b"six".to_vec()]);
    assert!(goes_on(&q, closing));
    shut_down(&mut q);
    assert!(!goes_on(&q, closing), "the rest of the batch is dropped");
    give_back(&mut q, batch);
    assert!(matches!(next_step(&mut q), WriterStep::Exit));
}

#[test]
fn what_is_queued_after_the_shutdown_is_still_written() {
    let mut q = empty_queue();
    shut_down(&mut q);
    let mut sink = StdoutSink::new();
    for frame in [b"one", b"two"] {
        sink.write(frame);
        sink.flush(&mut q, &mut off());
    }
    assert_eq!(written(&mut q), b"onetwo");
    assert!(matches!(next_step(&mut q), WriterStep::Exit));
}

#[test]
fn what_the_writer_has_taken_is_no_backlog() {
    let mut q = empty_queue();
    let mut sink = StdoutSink::new();
    sink.write(&vec![1u8; CAP_BYTES]);
    sink.flush(&mut q, &mut off());
    assert!(matches!(next_step(&mut q), WriterStep::Write { .. }));
    assert_eq!(q.bytes, 0);
    sink.write(&vec![2u8; CAP_BYTES]);
    sink.flush(&mut q, &mut off());
    assert!(!sink.needs_resync);
    assert_eq!(q.bytes, CAP_BYTES);
}

#[test]
fn buffers_go_back_by_their_capacities() {
    let mut q = empty_queue();
    let batch = vec![vec![1], vec![2]];
    give_back_sized(&mut q, batch, &vec![SPARE_MAX_BYTES + 1, SPARE_MAX_BYTES]);
    assert_eq!(q.spare, vec![Vec::<u8>::new()]);
}
