//! The pane layout tree and the rectangles it is tiled into.
use vstd::prelude::*;

use crate::ratio::Ratio;

verus! {

/// A terminal's identity.
#[derive(Debug, Clone, Copy, PartialEq, Eq, Hash, Structural)]
pub enum TerminalId {
    /// A terminal of the local server.
    Local {
        /// The server-assigned number.
        id: u32,
    },
}

impl TerminalId {
    /// The local terminal numbered `id`.
    pub fn local(id: u32) -> (t: TerminalId)
        ensures
            t == (TerminalId::Local { id }),
    {
        TerminalId::Local { id }
    }
}

/// A rectangle of cells in outer-viewport coordinates.
#[derive(Debug, Clone, Copy, PartialEq, Eq, Structural)]
pub struct Rect {
    pub x: u16,
    pub y: u16,
    pub w: u16,
    pub h: u16,
}

/// The mathematical rectangle: columns `x..x+w` of rows `y..y+h`.
pub struct Area {
    pub x: int,
    pub y: int,
    pub w: int,
    pub h: int,
}

impl Area {
    /// Half-open containment of the cell at column `x`, row `y`.
    pub open spec fn contains(self, x: int, y: int) -> bool {
        self.x <= x < self.x + self.w && self.y <= y < self.y + self.h
    }

    /// A rectangle whose far edges are still `u16` coordinates.
    pub open spec fn fits(self) -> bool {
        &&& 0 <= self.x
        &&& 0 <= self.y
        &&& 0 <= self.w
        &&& 0 <= self.h
        &&& self.x + self.w <= u16::MAX
        &&& self.y + self.h <= u16::MAX
    }
}

impl View for Rect {
    type V = Area;

    open spec fn view(&self) -> Area {
        Area { x: self.x as int, y: self.y as int, w: self.w as int, h: self.h as int }
    }
}

/// The axis a split divides: `Horizontal` sets its children side by side,
/// `Vertical` stacks them.
#[derive(Debug, Clone, Copy, PartialEq, Eq, Structural)]
pub enum SplitDir {
    Horizontal,
    Vertical,
}

/// One step down the layout tree.
#[derive(Debug, Clone, Copy, PartialEq, Eq, Structural)]
pub enum NodeStep {
    Left,
    Right,
}

/// The steps from the layout root to one of its nodes.
#[derive(Debug, PartialEq, Eq)]
pub struct NodePath {
    pub steps: Vec<NodeStep>,
}

impl View for NodePath {
    type V = Seq<NodeStep>;

    open spec fn view(&self) -> Seq<NodeStep> {
        self.steps@
    }
}

impl NodePath {
    /// The path of the root itself.
    pub fn root() -> (p: NodePath)
        ensures
            p@ == Seq::<NodeStep>::empty(),
    {
        NodePath { steps: Vec::new() }
    }

    /// Step down to a child.
    pub fn push(&mut self, step: NodeStep)
        ensures
            final(self)@ == old(self)@.push(step),
    {
        self.steps.push(step);
    }

    /// Step back up.
    pub fn pop(&mut self) -> (last: Option<NodeStep>)
        ensures
            old(self)@.len() == 0 ==> last is None && final(self)@ == old(self)@,
            old(self)@.len() > 0 ==> last == Some(old(self)@.last()) && final(self)@
                == old(self)@.drop_last(),
    {
        self.steps.pop()
    }

    /// A copy of this path.
    pub fn duplicate(&self) -> (p: NodePath)
        ensures
            p@ == self@,
    {
        let mut steps: Vec<NodeStep> = Vec::new();
        let mut i: usize = 0;
        while i < self.steps.len()
            invariant
                i <= self.steps.len(),
                steps@ == self.steps@.take(i as int),
            decreases self.steps.len() - i,
        {
            steps.push(self.steps[i]);
            proof {
                assert(self.steps@.take(i as int).push(self.steps@[i as int])
                    =~= self.steps@.take(i + 1));
            }
            i = i + 1;
        }
        proof {
            assert(self.steps@.take(i as int) =~= self.steps@);
        }
        NodePath { steps }
    }
}

/// A node of the layout tree: one pane, or a split of two subtrees.
#[derive(Debug, PartialEq, Eq)]
pub enum LayoutNode {
    /// A pane.
    Leaf(TerminalId),
    /// Two subtrees, `left` being the low side (left or top).
    Split {
        dir: SplitDir,
        /// The low side's share of the cells left after the divider.
        ratio: Ratio,
        left: Box<LayoutNode>,
        right: Box<LayoutNode>,
    },
}

impl LayoutNode {
    /// The panes of the tree, low side first.
    pub open spec fn leaves(self) -> Seq<TerminalId>
        decreases self,
    {
        match self {
            LayoutNode::Leaf(p) => seq![p],
            LayoutNode::Split { dir, ratio, left, right } => (*left).leaves() + (*right).leaves(),
        }
    }
}

/// A session's layout: its tree, and the pane it remembers as focused.
#[derive(Debug, PartialEq, Eq)]
pub struct LayoutState {
    pub tree: Option<LayoutNode>,
    pub focus: Option<TerminalId>,
}

/// The first index of `id` among the entries; their number when it is absent.
pub open spec fn slot_of(entries: Seq<(TerminalId, Area)>, id: TerminalId) -> int
    decreases entries.len(),
{
    if entries.len() == 0 {
        0
    } else if entries[0].0 == id {
        0
    } else {
        1 + slot_of(entries.drop_first(), id)
    }
}

/// The rectangle recorded for `id`.
pub open spec fn rect_of(entries: Seq<(TerminalId, Area)>, id: TerminalId) -> Option<Area> {
    let k = slot_of(entries, id);
    if k < entries.len() {
        Some(entries[k].1)
    } else {
        None
    }
}

/// Record `area` for `id`, replacing what was recorded before.
pub open spec fn put_rect(
    entries: Seq<(TerminalId, Area)>,
    id: TerminalId,
    area: Area,
) -> Seq<(TerminalId, Area)> {
    let k = slot_of(entries, id);
    if k < entries.len() {
        entries.update(k, (id, area))
    } else {
        entries.push((id, area))
    }
}

/// Record several rectangles, in order.
pub open spec fn put_rects(
    entries: Seq<(TerminalId, Area)>,
    more: Seq<(TerminalId, Area)>,
) -> Seq<(TerminalId, Area)>
    decreases more.len(),
{
    if more.len() == 0 {
        entries
    } else {
        put_rects(put_rect(entries, more[0].0, more[0].1), more.drop_first())
    }
}

/// No pane is recorded twice.
pub open spec fn distinct_ids(entries: Seq<(TerminalId, Area)>) -> bool {
    forall|i: int, j: int|
        0 <= i < j < entries.len() ==> (#[trigger] entries[i]).0 != (#[trigger] entries[j]).0
}

/// Where each pane sits, at most one rectangle per pane.
#[derive(Debug, PartialEq, Eq)]
pub struct PaneRects {
    entries: Vec<(TerminalId, Rect)>,
}

impl View for PaneRects {
    type V = Seq<(TerminalId, Area)>;

    closed spec fn view(&self) -> Seq<(TerminalId, Area)> {
        Seq::new(self.entries@.len(), |i: int| (self.entries@[i].0, self.entries@[i].1@))
    }
}

pub proof fn lemma_slot_of(entries: Seq<(TerminalId, Area)>, id: TerminalId)
    ensures
        0 <= slot_of(entries, id) <= entries.len(),
        slot_of(entries, id) < entries.len() ==> entries[slot_of(entries, id)].0 == id,
        forall|i: int|
            0 <= i < slot_of(entries, id) ==> (#[trigger] entries[i]).0 != id,
    decreases entries.len(),
{
    if entries.len() > 0 && entries[0].0 != id {
        lemma_slot_of(entries.drop_first(), id);
        assert forall|i: int| 0 <= i < slot_of(entries, id) implies (#[trigger] entries[i]).0
            != id by {
            if i > 0 {
                assert(entries[i] == entries.drop_first()[i - 1]);
            }
        }
    }
}

/// The slot is pinned by what it holds and what precedes it.
pub proof fn lemma_slot_is(entries: Seq<(TerminalId, Area)>, id: TerminalId, k: int)
    requires
        0 <= k <= entries.len(),
        k < entries.len() ==> entries[k].0 == id,
        forall|i: int| 0 <= i < k ==> (#[trigger] entries[i]).0 != id,
    ensures
        slot_of(entries, id) == k,
{
    lemma_slot_of(entries, id);
    let s = slot_of(entries, id);
    if s < k {
        assert(entries[s].0 != id);
    } else if k < s {
        assert(entries[k].0 != id);
    }
}

/// Recording a rectangle keeps the panes distinct.
pub proof fn lemma_put_rect_distinct(entries: Seq<(TerminalId, Area)>, id: TerminalId, area: Area)
    requires
        distinct_ids(entries),
    ensures
        distinct_ids(put_rect(entries, id, area)),
{
    lemma_slot_of(entries, id);
}

/// A recorded rectangle is what a lookup gives back; other panes keep theirs.
pub proof fn lemma_put_rect_get(
    entries: Seq<(TerminalId, Area)>,
    id: TerminalId,
    area: Area,
    other: TerminalId,
)
    ensures
        rect_of(put_rect(entries, id, area), id) == Some(area),
        other != id ==> rect_of(put_rect(entries, id, area), other) == rect_of(entries, other),
{
    let after = put_rect(entries, id, area);
    lemma_slot_of(entries, id);
    lemma_slot_is(after, id, slot_of(entries, id));
    if other != id {
        lemma_slot_of(entries, other);
        let k = slot_of(entries, other);
        if k < entries.len() {
            lemma_slot_is(after, other, k);
        } else {
            assert forall|i: int| 0 <= i < after.len() implies (#[trigger] after[i]).0 != other by {
                if i < entries.len() {
                    assert(entries[i].0 != other);
                }
            }
            lemma_slot_is(after, other, after.len() as int);
        }
    }
}

impl PaneRects {
    /// At most one rectangle per pane.
    pub open spec fn wf(self) -> bool {
        distinct_ids(self@)
    }

    /// No pane placed yet.
    pub fn new() -> (r: PaneRects)
        ensures
            r@ == Seq::<(TerminalId, Area)>::empty(),
            r.wf(),
    {
        let r = PaneRects { entries: Vec::new() };
        proof {
            assert(r@ =~= Seq::<(TerminalId, Area)>::empty());
        }
        r
    }

    /// How many panes are placed.
    pub fn len(&self) -> (n: usize)
        ensures
            n == self@.len(),
    {
        self.entries.len()
    }

    /// The `i`-th placed pane and its rectangle.
    pub fn entry(&self, i: usize) -> (e: (TerminalId, Rect))
        requires
            i < self@.len(),
        ensures
            (e.0, e.1@) == self@[i as int],
    {
        self.entries[i]
    }

    fn slot(&self, id: TerminalId) -> (k: usize)
        ensures
            k == slot_of(self@, id),
            k <= self.entries@.len(),
    {
        let mut i: usize = 0;
        while i < self.entries.len()
            invariant
                i <= self.entries.len(),
                forall|j: int| 0 <= j < i ==> (#[trigger] self@[j]).0 != id,
            decreases self.entries.len() - i,
        {
            if self.entries[i].0 == id {
                proof {
                    lemma_slot_is(self@, id, i as int);
                }
                return i;
            }
            i = i + 1;
        }
        proof {
            lemma_slot_is(self@, id, i as int);
        }
        i
    }

    /// The rectangle of `id`, when it is placed.
    pub fn get(&self, id: TerminalId) -> (r: Option<Rect>)
        ensures
            match r {
                Some(rect) => rect_of(self@, id) == Some(rect@),
                None => rect_of(self@, id) is None,
            },
    {
        let k = self.slot(id);
        if k < self.entries.len() {
            Some(self.entries[k].1)
        } else {
            None
        }
    }

    /// Place `id` at `rect`, replacing an earlier placement.
    pub fn insert(&mut self, id: TerminalId, rect: Rect)
        ensures
            final(self)@ == put_rect(old(self)@, id, rect@),
            old(self).wf() ==> final(self).wf(),
    {
        proof {
            if self.wf() {
                lemma_put_rect_distinct(self@, id, rect@);
            }
            lemma_slot_of(self@, id);
        }
        let k = self.slot(id);
        if k < self.entries.len() {
            self.entries[k] = (id, rect);
        } else {
            self.entries.push((id, rect));
        }
        proof {
            assert(self@ =~= put_rect(old(self)@, id, rect@));
        }
    }
}

} // verus!
