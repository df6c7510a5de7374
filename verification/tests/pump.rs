use phux_core_logic::pump::{
    BootstrapId, PumpGeneration, GAP_RESYNC_RETRY, RESIZE_RESYNC_DEBOUNCE,
};

fn bootstrap(raw: u64) -> BootstrapId {
    BootstrapId::new(raw).expect("non-zero bootstrap id")
}

fn opened() -> PumpGeneration {
    PumpGeneration::opened_at(41, bootstrap(7))
}

#[test]
fn a_fresh_generation_forwards_only_past_its_cut() {
    let generation = opened();
    assert!(!generation.forwards(41), "the cut itself is already covered");
    assert!(generation.forwards(42));
    assert!(!generation.is_fenced());
}

#[test]
fn a_gap_fences_every_live_delta_until_the_replacement_lands() {
    let mut generation = opened();
    assert!(!generation.fence_for_gap(), "first gap is not a repeat");
    assert!(generation.is_fenced());
    assert!(!generation.forwards(20_533));
    assert!(generation.fence_for_gap(), "second gap is a repeat");

    generation.republished_at(9_000);
    assert!(!generation.is_fenced());
    assert!(!generation.forwards(9_000));
    assert!(generation.forwards(9_001));
}

#[test]
fn a_retired_generation_forwards_nothing_even_unfenced() {
    let mut generation = opened();
    generation.retire();
    assert!(!generation.is_active());
    assert!(!generation.forwards(42));
    generation.republished_at(100);
    assert!(generation.is_active());
    assert!(generation.forwards(101));
}

#[test]
fn the_retry_window_sits_well_above_the_actor_resync_debounce() {
    assert!(
        GAP_RESYNC_RETRY >= RESIZE_RESYNC_DEBOUNCE * 4,
        "a resync that is merely coalescing must not look like one that was lost",
    );
}

#[test]
fn only_a_fenced_pump_bounds_its_wait() {
    let mut generation = opened();
    assert_eq!(generation.wait_bound(), None);
    generation.fence_for_gap();
    assert_eq!(generation.wait_bound(), Some(500));
    generation.republished_at(50);
    assert_eq!(generation.wait_bound(), None);
}

#[test]
fn labels_and_sequences_are_kept() {
    let mut generation = opened();
    assert_eq!(generation.bootstrap_id().get(), 7);
    assert_eq!(generation.last_forwarded_seq(), 41);
    generation.note_forwarded(44);
    generation.set_bootstrap_id(bootstrap(8));
    assert_eq!(generation.bootstrap_id().get(), 8);
    assert_eq!(generation.last_forwarded_seq(), 44);
    generation.republished_at(60);
    assert_eq!(generation.last_forwarded_seq(), 60);
    assert!(BootstrapId::new(0).is_none());
}
