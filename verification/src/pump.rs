//! What an output pump may put on the wire.
//!
//! A pump forwards one pane's output to one consumer, labelled with a
//! generation. The consumer's mirror is exactly sequenced, so once the
//! broadcast has dropped a window under the pump, nothing more may be forwarded
//! until a replacement generation is published. Every pump asks the one gate
//! here.
use vstd::prelude::*;

verus! {

/// How long a fenced pump waits for the replacement generation before it asks
/// again, in milliseconds.
pub const GAP_RESYNC_RETRY: u64 = 500;

/// How long the terminal actor coalesces resizes before it resyncs, in
/// milliseconds.
pub const RESIZE_RESYNC_DEBOUNCE: u64 = 50;

/// The label of a generation, never zero.
#[derive(Debug, Clone, Copy, PartialEq, Eq, Structural)]
pub struct BootstrapId {
    raw: u64,
}

impl BootstrapId {
    pub closed spec fn number(self) -> u64 {
        self.raw
    }

    /// The label with this number, unless it is zero.
    pub fn new(raw: u64) -> (id: Option<BootstrapId>)
        ensures
            match id {
                Some(id) => raw != 0 && id.number() == raw,
                None => raw == 0,
            },
    {
        if raw == 0 {
            None
        } else {
            Some(BootstrapId { raw })
        }
    }

    /// The label's number.
    pub fn get(self) -> (raw: u64)
        ensures
            raw == self.number(),
    {
        self.raw
    }
}

/// Where a pump has got to inside the generation it publishes, and whether that
/// generation may still carry live output.
#[derive(Debug)]
pub struct PumpGeneration {
    published_cut: u64,
    last_forwarded_seq: u64,
    bootstrap_id: BootstrapId,
    generation_active: bool,
    gap_pending: bool,
}

/// The mathematical content of a [`PumpGeneration`].
pub struct GenerationView {
    /// Highest sequence the published bootstrap covers.
    pub published_cut: u64,
    /// Highest sequence forwarded to the consumer.
    pub last_forwarded_seq: u64,
    /// The label of every emitted frame.
    pub bootstrap_id: BootstrapId,
    /// A generation is published and not retired.
    pub active: bool,
    /// A window was dropped and no replacement is published yet.
    pub fenced: bool,
}

impl View for PumpGeneration {
    type V = GenerationView;

    closed spec fn view(&self) -> GenerationView {
        GenerationView {
            published_cut: self.published_cut,
            last_forwarded_seq: self.last_forwarded_seq,
            bootstrap_id: self.bootstrap_id,
            active: self.generation_active,
            fenced: self.gap_pending,
        }
    }
}

/// A live delta may go on the wire: the generation is active and not fenced, and
/// the bootstrap does not cover the sequence already.
pub open spec fn may_forward(g: GenerationView, seq: u64) -> bool {
    g.active && !g.fenced && seq > g.published_cut
}

/// What can happen to a pump's generation.
pub enum GenerationChange {
    Labelled(BootstrapId),
    Forwarded(u64),
    Retired,
    Fenced,
    Republished(u64),
}

/// The generation after a change.
pub open spec fn changed(g: GenerationView, change: GenerationChange) -> GenerationView {
    match change {
        GenerationChange::Labelled(id) => GenerationView { bootstrap_id: id, ..g },
        GenerationChange::Forwarded(seq) => GenerationView { last_forwarded_seq: seq, ..g },
        GenerationChange::Retired => GenerationView { active: false, ..g },
        GenerationChange::Fenced => GenerationView { fenced: true, ..g },
        GenerationChange::Republished(base) => GenerationView {
            published_cut: base,
            last_forwarded_seq: base,
            active: true,
            fenced: false,
            ..g
        },
    }
}

/// The generation after several changes, in order.
pub open spec fn changed_all(g: GenerationView, changes: Seq<GenerationChange>) -> GenerationView
    decreases changes.len(),
{
    if changes.len() == 0 {
        g
    } else {
        changed(changed_all(g, changes.drop_last()), changes.last())
    }
}

impl PumpGeneration {
    /// Start at the cut the publication handed over.
    pub fn opened_at(published_cut: u64, bootstrap_id: BootstrapId) -> (g: PumpGeneration)
        ensures
            g@ == (GenerationView {
                published_cut,
                last_forwarded_seq: published_cut,
                bootstrap_id,
                active: true,
                fenced: false,
            }),
    {
        PumpGeneration {
            published_cut,
            last_forwarded_seq: published_cut,
            bootstrap_id,
            generation_active: true,
            gap_pending: false,
        }
    }

    /// The label of every frame this pump emits.
    pub fn bootstrap_id(&self) -> (id: BootstrapId)
        ensures
            id == self@.bootstrap_id,
    {
        self.bootstrap_id
    }

    /// Adopt the next label ahead of republishing.
    pub fn set_bootstrap_id(&mut self, bootstrap_id: BootstrapId)
        ensures
            final(self)@ == changed(old(self)@, GenerationChange::Labelled(bootstrap_id)),
    {
        self.bootstrap_id = bootstrap_id;
    }

    /// Highest sequence forwarded.
    pub fn last_forwarded_seq(&self) -> (seq: u64)
        ensures
            seq == self@.last_forwarded_seq,
    {
        self.last_forwarded_seq
    }

    /// Is a generation published and not retired?
    pub fn is_active(&self) -> (b: bool)
        ensures
            b == self@.active,
    {
        self.generation_active
    }

    /// Is this pump waiting for a replacement generation after a gap?
    pub fn is_fenced(&self) -> (b: bool)
        ensures
            b == self@.fenced,
    {
        self.gap_pending
    }

    /// May this live delta go on the wire?
    pub fn forwards(&self, seq: u64) -> (b: bool)
        ensures
            b == may_forward(self@, seq),
    {
        self.generation_active && !self.gap_pending && seq > self.published_cut
    }

    /// Record a delta that reached the consumer.
    pub fn note_forwarded(&mut self, seq: u64)
        ensures
            final(self)@ == changed(old(self)@, GenerationChange::Forwarded(seq)),
    {
        self.last_forwarded_seq = seq;
    }

    /// The published generation was retired.
    pub fn retire(&mut self)
        ensures
            final(self)@ == changed(old(self)@, GenerationChange::Retired),
    {
        self.generation_active = false;
    }

    /// The broadcast dropped a window: fence the generation. Tells whether it was
    /// fenced already.
    pub fn fence_for_gap(&mut self) -> (already: bool)
        ensures
            already == old(self)@.fenced,
            final(self)@ == changed(old(self)@, GenerationChange::Fenced),
    {
        let already = self.gap_pending;
        self.gap_pending = true;
        already
    }

    /// A replacement generation is published at `base_seq`.
    pub fn republished_at(&mut self, base_seq: u64)
        ensures
            final(self)@ == changed(old(self)@, GenerationChange::Republished(base_seq)),
    {
        self.published_cut = base_seq;
        self.last_forwarded_seq = base_seq;
        self.generation_active = true;
        self.gap_pending = false;
    }

    /// How long to wait for the next broadcast event, in milliseconds: without
    /// bound, except while fenced, when the wait running out is the cue to ask
    /// for the replacement again.
    pub fn wait_bound(&self) -> (bound: Option<u64>)
        ensures
            bound == (if self@.fenced {
                Some(GAP_RESYNC_RETRY)
            } else {
                None
            }),
    {
        if self.gap_pending {
            Some(GAP_RESYNC_RETRY)
        } else {
            None
        }
    }
}

/// Nothing is forwarded between a gap, or a retirement, and the next
/// publication, whatever else happens in between.
pub proof fn law_nothing_is_forwarded_before_the_replacement(
    g: GenerationView,
    changes: Seq<GenerationChange>,
    seq: u64,
)
    requires
        g.fenced || !g.active,
        forall|i: int| 0 <= i < changes.len() ==> !(#[trigger] changes[i] is Republished),
    ensures
        !may_forward(changed_all(g, changes), seq),
        g.fenced ==> changed_all(g, changes).fenced,
        !g.active ==> !changed_all(g, changes).active,
    decreases changes.len(),
{
    if changes.len() > 0 {
        let rest = changes.drop_last();
        assert forall|i: int| 0 <= i < rest.len() implies !(#[trigger] rest[i] is Republished) by {
            assert(rest[i] == changes[i]);
        }
        law_nothing_is_forwarded_before_the_replacement(g, rest, seq);
        assert(!(changes[changes.len() - 1] is Republished));
    }
}

/// A publication reopens the pump, and only past its own base.
pub proof fn law_a_publication_reopens_past_its_base(g: GenerationView, base: u64, seq: u64)
    ensures
        may_forward(changed(g, GenerationChange::Republished(base)), seq) <==> seq > base,
{
}

} // verus!
