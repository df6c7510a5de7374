//! The divider grid: which edges each divider cell has, kept in row-major
//! order.
use vstd::prelude::*;

verus! {

/// The edges leaving one divider cell. `Some(heavy)` when there is one.
#[derive(Debug, Clone, Copy, PartialEq, Eq, Structural)]
pub struct DividerEdges {
    pub north: Option<bool>,
    pub east: Option<bool>,
    pub south: Option<bool>,
    pub west: Option<bool>,
}

/// A cell's column and row.
pub type Spot = (int, int);

/// The abstract grid: the edges of every divider cell.
pub type EdgeMap = Map<Spot, DividerEdges>;

/// A cell without edges.
pub open spec fn no_edges() -> DividerEdges {
    DividerEdges { north: None, east: None, south: None, west: None }
}

/// The edges at a cell, none where there is no divider cell yet.
pub open spec fn edges_at(grid: EdgeMap, spot: Spot) -> DividerEdges {
    if grid.contains_key(spot) {
        grid[spot]
    } else {
        no_edges()
    }
}

/// Row-major order: row first, then column.
pub open spec fn before(a: Spot, b: Spot) -> bool {
    a.1 < b.1 || (a.1 == b.1 && a.0 < b.0)
}

/// `order` lists exactly the cells of `spots`, in row-major order.
pub open spec fn lists(order: Seq<Spot>, spots: Set<Spot>) -> bool {
    &&& forall|i: int, j: int|
        0 <= i < j < order.len() ==> before(#[trigger] order[i], #[trigger] order[j])
    &&& forall|i: int| 0 <= i < order.len() ==> spots.contains(#[trigger] order[i])
    &&& forall|s: Spot| spots.contains(s) ==> order.contains(s)
}

/// The cells of the grid in row-major order.
pub open spec fn row_major(grid: EdgeMap) -> Seq<Spot> {
    choose|order: Seq<Spot>| lists(order, grid.dom())
}

/// There is only one row-major listing of a set of cells.
pub proof fn lemma_listing_is_unique(a: Seq<Spot>, b: Seq<Spot>, spots: Set<Spot>)
    requires
        lists(a, spots),
        lists(b, spots),
    ensures
        a == b,
    decreases a.len(),
{
    if a.len() == 0 {
        if b.len() > 0 {
            assert(spots.contains(b[0]));
            assert(a.contains(b[0]));
        }
        assert(a =~= b);
    } else {
        let m = a.last();
        assert(spots.contains(a[a.len() - 1]));
        assert(b.contains(m));
        let j = choose|j: int| 0 <= j < b.len() && b[j] == m;
        let n = b.last();
        assert(spots.contains(b[b.len() - 1]));
        assert(a.contains(n));
        let i = choose|i: int| 0 <= i < a.len() && a[i] == n;
        if j < b.len() - 1 {
            assert(before(b[j], b[b.len() - 1]));
            if i < a.len() - 1 {
                assert(before(a[i], a[a.len() - 1]));
            }
        }
        assert(m == n);
        let rest = spots.remove(m);
        assert(lists(a.drop_last(), rest)) by {
            assert forall|k: int| 0 <= k < a.len() - 1 implies rest.contains(
                #[trigger] a.drop_last()[k],
            ) by {
                assert(before(a[k], a[a.len() - 1]));
                assert(spots.contains(a[k]));
            }
            assert forall|s: Spot| rest.contains(s) implies a.drop_last().contains(s) by {
                assert(a.contains(s));
                let k = choose|k: int| 0 <= k < a.len() && a[k] == s;
                assert(a.drop_last()[k] == s);
            }
        }
        assert(lists(b.drop_last(), rest)) by {
            assert forall|k: int| 0 <= k < b.len() - 1 implies rest.contains(
                #[trigger] b.drop_last()[k],
            ) by {
                assert(before(b[k], b[b.len() - 1]));
                assert(spots.contains(b[k]));
            }
            assert forall|s: Spot| rest.contains(s) implies b.drop_last().contains(s) by {
                assert(b.contains(s));
                let k = choose|k: int| 0 <= k < b.len() && b[k] == s;
                assert(b.drop_last()[k] == s);
            }
        }
        lemma_listing_is_unique(a.drop_last(), b.drop_last(), rest);
        assert(a =~= a.drop_last().push(m));
        assert(b =~= b.drop_last().push(m));
    }
}

/// A listing that is at hand is the grid's row-major listing.
pub proof fn lemma_row_major_is(grid: EdgeMap, order: Seq<Spot>)
    requires
        lists(order, grid.dom()),
    ensures
        row_major(grid) == order,
        lists(row_major(grid), grid.dom()),
{
    lemma_listing_is_unique(row_major(grid), order, grid.dom());
}

/// One stored cell.
#[derive(Debug, Clone, Copy)]
pub struct GridCell {
    pub x: u16,
    pub y: u16,
    pub edges: DividerEdges,
}

impl GridCell {
    pub open spec fn spot(self) -> Spot {
        (self.x as int, self.y as int)
    }
}

/// The divider grid, its cells stored in row-major order.
#[derive(Debug)]
pub struct EdgeGrid {
    cells: Vec<GridCell>,
}

impl View for EdgeGrid {
    type V = EdgeMap;

    closed spec fn view(&self) -> EdgeMap {
        Map::new(
            |s: Spot| exists|i: int| 0 <= i < self.cells@.len() && #[trigger] self.cells@[i].spot() == s,
            |s: Spot|
                self.cells@[choose|i: int|
                    0 <= i < self.cells@.len() && #[trigger] self.cells@[i].spot() == s].edges,
        )
    }
}

impl EdgeGrid {
    /// The stored cells' positions.
    pub closed spec fn order(self) -> Seq<Spot> {
        Seq::new(self.cells@.len(), |i: int| self.cells@[i].spot())
    }

    /// Cells are stored once each, in row-major order.
    pub closed spec fn wf(self) -> bool {
        forall|i: int, j: int|
            0 <= i < j < self.cells@.len() ==> before(
                #[trigger] self.cells@[i].spot(),
                #[trigger] self.cells@[j].spot(),
            )
    }

    /// What the stored cells say of the abstract grid.
    proof fn lemma_cells(&self)
        requires
            self.wf(),
        ensures
            forall|i: int|
                0 <= i < self.cells@.len() ==> self@.contains_key(#[trigger] self.cells@[i].spot())
                    && self@[self.cells@[i].spot()] == self.cells@[i].edges,
            forall|s: Spot| self@.contains_key(s) ==> exists|i: int|
                0 <= i < self.cells@.len() && #[trigger] self.cells@[i].spot() == s,
    {
        assert forall|i: int| 0 <= i < self.cells@.len() implies self@.contains_key(
            #[trigger] self.cells@[i].spot(),
        ) && self@[self.cells@[i].spot()] == self.cells@[i].edges by {
            let s = self.cells@[i].spot();
            let k = choose|k: int| 0 <= k < self.cells@.len() && #[trigger] self.cells@[k].spot() == s;
            if k < i {
                assert(before(self.cells@[k].spot(), self.cells@[i].spot()));
            } else if i < k {
                assert(before(self.cells@[i].spot(), self.cells@[k].spot()));
            }
        }
    }

    /// The stored order is the row-major listing of the grid.
    pub proof fn lemma_order(&self)
        requires
            self.wf(),
        ensures
            lists(self.order(), self@.dom()),
            row_major(self@) == self.order(),
    {
        self.lemma_cells();
        assert forall|s: Spot| self@.dom().contains(s) implies self.order().contains(s) by {
            let i = choose|i: int| 0 <= i < self.cells@.len() && #[trigger] self.cells@[i].spot() == s;
            assert(self.order()[i] == s);
        }
        assert forall|i: int, j: int| 0 <= i < j < self.order().len() implies before(
            #[trigger] self.order()[i],
            #[trigger] self.order()[j],
        ) by {
            assert(before(self.cells@[i].spot(), self.cells@[j].spot()));
        }
        assert forall|i: int| 0 <= i < self.order().len() implies self@.dom().contains(
            #[trigger] self.order()[i],
        ) by {
            assert(self@.contains_key(self.cells@[i].spot()));
        }
        lemma_row_major_is(self@, self.order());
    }

    /// An empty grid.
    pub fn new() -> (g: EdgeGrid)
        ensures
            g.wf(),
            g@ == Map::<Spot, DividerEdges>::empty(),
    {
        let g = EdgeGrid { cells: Vec::new() };
        proof {
            assert(g@ =~= Map::<Spot, DividerEdges>::empty());
        }
        g
    }

    /// How many cells the grid holds.
    pub fn len(&self) -> (n: usize)
        ensures
            n == self.order().len(),
    {
        self.cells.len()
    }

    /// The `i`-th cell in row-major order.
    pub fn cell(&self, i: usize) -> (c: GridCell)
        requires
            self.wf(),
            i < self.order().len(),
        ensures
            c.spot() == self.order()[i as int],
            self@.contains_key(c.spot()),
            c.edges == self@[c.spot()],
    {
        proof {
            self.lemma_cells();
            assert(self@.contains_key(self.cells@[i as int].spot()));
        }
        self.cells[i]
    }

    /// The first stored index not before `(x, y)`.
    fn locate(&self, x: u16, y: u16) -> (k: usize)
        requires
            self.wf(),
        ensures
            k <= self.cells@.len(),
            forall|i: int|
                0 <= i < k ==> before(#[trigger] self.cells@[i].spot(), (x as int, y as int)),
            forall|i: int|
                k <= i < self.cells@.len() ==> !before(
                    #[trigger] self.cells@[i].spot(),
                    (x as int, y as int),
                ),
    {
        let mut lo: usize = 0;
        let mut hi: usize = self.cells.len();
        while lo < hi
            invariant
                lo <= hi <= self.cells@.len(),
                self.wf(),
                forall|i: int|
                    0 <= i < lo ==> before(#[trigger] self.cells@[i].spot(), (x as int, y as int)),
                forall|i: int|
                    hi <= i < self.cells@.len() ==> !before(
                        #[trigger] self.cells@[i].spot(),
                        (x as int, y as int),
                    ),
            decreases hi - lo,
        {
            let mid: usize = lo + (hi - lo) / 2;
            let c = self.cells[mid];
            if c.y < y || (c.y == y && c.x < x) {
                proof {
                    assert forall|i: int| 0 <= i < mid + 1 implies before(
                        #[trigger] self.cells@[i].spot(),
                        (x as int, y as int),
                    ) by {
                        if i < mid {
                            assert(before(self.cells@[i].spot(), self.cells@[mid as int].spot()));
                        }
                    }
                }
                lo = mid + 1;
            } else {
                proof {
                    assert forall|i: int| mid <= i < self.cells@.len() implies !before(
                        #[trigger] self.cells@[i].spot(),
                        (x as int, y as int),
                    ) by {
                        if i > mid {
                            assert(before(self.cells@[mid as int].spot(), self.cells@[i].spot()));
                        }
                    }
                }
                hi = mid;
            }
        }
        lo
    }

    /// The edges at `(x, y)`, when it is a divider cell.
    pub fn get(&self, x: u16, y: u16) -> (e: Option<DividerEdges>)
        requires
            self.wf(),
        ensures
            e == (if self@.contains_key((x as int, y as int)) {
                Some(self@[(x as int, y as int)])
            } else {
                None
            }),
    {
        let k = self.locate(x, y);
        proof {
            self.lemma_cells();
        }
        if k < self.cells.len() && self.cells[k].x == x && self.cells[k].y == y {
            proof {
                assert(self.cells@[k as int].spot() == (x as int, y as int));
            }
            Some(self.cells[k].edges)
        } else {
            proof {
                if self@.contains_key((x as int, y as int)) {
                    let i = choose|i: int|
                        0 <= i < self.cells@.len() && #[trigger] self.cells@[i].spot() == (
                            x as int,
                            y as int,
                        );
                    if i > k {
                        assert(before(self.cells@[k as int].spot(), self.cells@[i].spot()));
                    }
                }
            }
            None
        }
    }

    /// Set the edges at `(x, y)`, making it a divider cell.
    pub fn set(&mut self, x: u16, y: u16, edges: DividerEdges)
        requires
            old(self).wf(),
        ensures
            final(self).wf(),
            final(self)@ == old(self)@.insert((x as int, y as int), edges),
            old(self)@.contains_key((x as int, y as int)) ==> final(self).order()
                == old(self).order(),
    {
        let ghost spot: Spot = (x as int, y as int);
        let ghost was = *self;
        proof {
            self.lemma_cells();
        }
        let k = self.locate(x, y);
        let cell = GridCell { x, y, edges };
        if k < self.cells.len() && self.cells[k].x == x && self.cells[k].y == y {
            self.cells[k] = cell;
            proof {
                assert(was.cells@[k as int].spot() == spot);
                assert forall|i: int| 0 <= i < self.cells@.len() implies
                    #[trigger] self.cells@[i].spot() == was.cells@[i].spot() by {}
                assert(self.order() =~= was.order());
                self.lemma_cells();
                assert(self@.dom() =~= was@.insert(spot, edges).dom()) by {
                    assert forall|s: Spot| self@.contains_key(s) implies was@.contains_key(s) by {
                        let i = choose|i: int|
                            0 <= i < self.cells@.len() && #[trigger] self.cells@[i].spot() == s;
                        assert(was.cells@[i].spot() == s);
                    }
                    assert forall|s: Spot| was@.contains_key(s) implies self@.contains_key(s) by {
                        let i = choose|i: int|
                            0 <= i < was.cells@.len() && #[trigger] was.cells@[i].spot() == s;
                        assert(self.cells@[i].spot() == s);
                    }
                    assert(self.cells@[k as int].spot() == spot);
                }
                assert forall|s: Spot| self@.contains_key(s) implies #[trigger] self@[s]
                    == was@.insert(spot, edges)[s] by {
                    let i = choose|i: int|
                        0 <= i < self.cells@.len() && #[trigger] self.cells@[i].spot() == s;
                    assert(was.cells@[i].spot() == s);
                    if i != k {
                        if i < k {
                            assert(before(was.cells@[i].spot(), was.cells@[k as int].spot()));
                        } else {
                            assert(before(was.cells@[k as int].spot(), was.cells@[i].spot()));
                        }
                    }
                }
                assert(self@ =~= was@.insert(spot, edges));
            }
        } else {
            self.cells.insert(k, cell);
            proof {
                let now = self.cells@;
                let prev = was.cells@;
                assert(now == prev.insert(k as int, cell));
                assert(forall|i: int| 0 <= i < k ==> now[i] == prev[i]);
                assert(now[k as int] == cell);
                assert(forall|i: int| k < i < now.len() ==> now[i] == prev[i - 1]);
                assert forall|i: int| k <= i < prev.len() implies before(
                    spot,
                    #[trigger] prev[i].spot(),
                ) by {
                    if i > k {
                        assert(before(prev[k as int].spot(), prev[i].spot()));
                    }
                    assert(!before(prev[i].spot(), spot));
                    assert(!before(prev[k as int].spot(), spot));
                }
                assert forall|i: int, j: int| 0 <= i < j < now.len() implies before(
                    #[trigger] now[i].spot(),
                    #[trigger] now[j].spot(),
                ) by {
                    if j < k {
                        assert(before(prev[i].spot(), prev[j].spot()));
                    } else if j == k {
                        assert(before(prev[i].spot(), spot));
                    } else if i < k {
                        assert(before(prev[i].spot(), prev[j - 1].spot()));
                    } else if i == k {
                        assert(before(spot, prev[j - 1].spot()));
                    } else {
                        assert(before(prev[i - 1].spot(), prev[j - 1].spot()));
                    }
                }
                self.lemma_cells();
                assert(!was@.contains_key(spot)) by {
                    if was@.contains_key(spot) {
                        let i = choose|i: int|
                            0 <= i < prev.len() && #[trigger] prev[i].spot() == spot;
                        if i < k {
                            assert(before(prev[i].spot(), spot));
                        } else {
                            assert(before(spot, prev[i].spot()));
                        }
                    }
                }
                assert(self@.dom() =~= was@.insert(spot, edges).dom()) by {
                    assert forall|s: Spot| self@.contains_key(s) implies was@.contains_key(s) || s
                        == spot by {
                        let i = choose|i: int| 0 <= i < now.len() && #[trigger] now[i].spot() == s;
                        if i < k {
                            assert(prev[i].spot() == s);
                        } else if i > k {
                            assert(prev[i - 1].spot() == s);
                        }
                    }
                    assert forall|s: Spot| was@.contains_key(s) implies self@.contains_key(s) by {
                        let i = choose|i: int| 0 <= i < prev.len() && #[trigger] prev[i].spot() == s;
                        if i < k {
                            assert(now[i].spot() == s);
                        } else {
                            assert(now[i + 1].spot() == s);
                        }
                    }
                    assert(now[k as int].spot() == spot);
                }
                assert forall|s: Spot| self@.contains_key(s) implies #[trigger] self@[s]
                    == was@.insert(spot, edges)[s] by {
                    let i = choose|i: int| 0 <= i < now.len() && #[trigger] now[i].spot() == s;
                    if i < k {
                        assert(prev[i].spot() == s);
                    } else if i > k {
                        assert(prev[i - 1].spot() == s);
                    }
                }
                assert(self@ =~= was@.insert(spot, edges));
            }
        }
    }
}

} // verus!
