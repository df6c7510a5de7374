//! From divider lines to divider cells: lay each line's edges into a grid,
//! join lines where they meet, and pick each cell's box-drawing glyph.
use vstd::prelude::*;

use crate::grid::{
    edges_at, lists, row_major, DividerEdges, EdgeGrid, EdgeMap, Spot,
};
use crate::layout::{rect_of, Area, NodePath, NodeStep, PaneRects, Rect, SplitDir, TerminalId};
use crate::tiling::{max_of, min_of, segment_views, DividerSegment, SegmentView};

verus! {

/// One cell of the divider grid, with its resolved box-drawing glyph.
#[derive(Debug, Clone, Copy, PartialEq, Eq, Structural)]
pub struct DividerCell {
    /// Column in outer-viewport coordinates.
    pub x: u16,
    /// Row in outer-viewport coordinates.
    pub y: u16,
    /// The box-drawing character.
    pub ch: char,
}

impl DividerCell {
    pub open spec fn spot(self) -> Spot {
        (self.x as int, self.y as int)
    }
}

/// A grab target: the cells of one split's divider and the split they control.
#[derive(Debug, PartialEq, Eq)]
pub struct DividerHit {
    /// Path from the layout root to the controlling split.
    pub node_path: NodePath,
    /// The split's axis: a drag reads the pointer's column when it is
    /// `Horizontal`, its row when it is `Vertical`.
    pub axis: SplitDir,
    /// The cells of the line, in order along it.
    pub cells: Vec<(u16, u16)>,
}

/// The mathematical content of a [`DividerHit`].
#[verifier::ext_equal]
pub struct HitView {
    pub path: Seq<NodeStep>,
    pub axis: SplitDir,
    pub cells: Seq<Spot>,
}

impl View for DividerHit {
    type V = HitView;

    open spec fn view(&self) -> HitView {
        HitView {
            path: self.node_path@,
            axis: self.axis,
            cells: Seq::new(
                self.cells@.len(),
                |i: int| (self.cells@[i].0 as int, self.cells@[i].1 as int),
            ),
        }
    }
}

/// How an edge is drawn.
#[derive(Debug, Clone, Copy, PartialEq, Eq, Structural)]
pub enum EdgeKind {
    Absent,
    Light,
    Heavy,
}

pub open spec fn kind_of(e: Option<bool>) -> EdgeKind {
    match e {
        None => EdgeKind::Absent,
        Some(heavy) => if heavy {
            EdgeKind::Heavy
        } else {
            EdgeKind::Light
        },
    }
}

fn edge_kind(e: Option<bool>) -> (k: EdgeKind)
    ensures
        k == kind_of(e),
{
    match e {
        None => EdgeKind::Absent,
        Some(false) => EdgeKind::Light,
        Some(true) => EdgeKind::Heavy,
    }
}

/// The light glyph of the shape with these arms. A single arm is drawn as the
/// straight line it continues, and no arm at all as a blank.
pub open spec fn light_shape(n: bool, e: bool, s: bool, w: bool) -> char {
    match (n, e, s, w) {
        (true, false, true, false) => '\u{2502}',
        (true, false, false, false) => '\u{2502}',
        (false, false, true, false) => '\u{2502}',
        (false, true, false, true) => '\u{2500}',
        (false, true, false, false) => '\u{2500}',
        (false, false, false, true) => '\u{2500}',
        (false, true, true, false) => '\u{250C}',
        (false, false, true, true) => '\u{2510}',
        (true, true, false, false) => '\u{2514}',
        (true, false, false, true) => '\u{2518}',
        (true, true, true, false) => '\u{251C}',
        (true, false, true, true) => '\u{2524}',
        (false, true, true, true) => '\u{252C}',
        (true, true, false, true) => '\u{2534}',
        (true, true, true, true) => '\u{253C}',
        _ => ' ',
    }
}

/// The heavy glyph of the shape with these arms.
pub open spec fn heavy_shape(n: bool, e: bool, s: bool, w: bool) -> char {
    match (n, e, s, w) {
        (true, false, true, false) => '\u{2503}',
        (true, false, false, false) => '\u{2503}',
        (false, false, true, false) => '\u{2503}',
        (false, true, false, true) => '\u{2501}',
        (false, true, false, false) => '\u{2501}',
        (false, false, false, true) => '\u{2501}',
        (false, true, true, false) => '\u{250F}',
        (false, false, true, true) => '\u{2513}',
        (true, true, false, false) => '\u{2517}',
        (true, false, false, true) => '\u{251B}',
        (true, true, true, false) => '\u{2523}',
        (true, false, true, true) => '\u{252B}',
        (false, true, true, true) => '\u{2533}',
        (true, true, false, true) => '\u{253B}',
        (true, true, true, true) => '\u{254B}',
        _ => ' ',
    }
}

/// The glyphs of mixed weight: tees and crosses that are heavy along one axis,
/// and crosses that are heavy on two neighbouring arms.
pub open spec fn mixed_shape(n: EdgeKind, e: EdgeKind, s: EdgeKind, w: EdgeKind) -> Option<char> {
    match (n, e, s, w) {
        (EdgeKind::Heavy, EdgeKind::Light, EdgeKind::Heavy, EdgeKind::Absent) => Some(
            '\u{2520}',
        ),
        (EdgeKind::Light, EdgeKind::Heavy, EdgeKind::Light, EdgeKind::Absent) => Some(
            '\u{251D}',
        ),
        (EdgeKind::Heavy, EdgeKind::Absent, EdgeKind::Heavy, EdgeKind::Light) => Some(
            '\u{2528}',
        ),
        (EdgeKind::Light, EdgeKind::Absent, EdgeKind::Light, EdgeKind::Heavy) => Some(
            '\u{2525}',
        ),
        (EdgeKind::Absent, EdgeKind::Heavy, EdgeKind::Light, EdgeKind::Heavy) => Some(
            '\u{252F}',
        ),
        (EdgeKind::Absent, EdgeKind::Light, EdgeKind::Heavy, EdgeKind::Light) => Some(
            '\u{2530}',
        ),
        (EdgeKind::Light, EdgeKind::Heavy, EdgeKind::Absent, EdgeKind::Heavy) => Some(
            '\u{2537}',
        ),
        (EdgeKind::Heavy, EdgeKind::Light, EdgeKind::Absent, EdgeKind::Light) => Some(
            '\u{2538}',
        ),
        (EdgeKind::Heavy, EdgeKind::Light, EdgeKind::Heavy, EdgeKind::Light) => Some(
            '\u{2542}',
        ),
        (EdgeKind::Light, EdgeKind::Heavy, EdgeKind::Light, EdgeKind::Heavy) => Some(
            '\u{253F}',
        ),
        (EdgeKind::Light, EdgeKind::Heavy, EdgeKind::Heavy, EdgeKind::Light) => Some(
            '\u{2545}',
        ),
        (EdgeKind::Heavy, EdgeKind::Heavy, EdgeKind::Light, EdgeKind::Light) => Some(
            '\u{2546}',
        ),
        (EdgeKind::Heavy, EdgeKind::Light, EdgeKind::Light, EdgeKind::Heavy) => Some(
            '\u{2548}',
        ),
        (EdgeKind::Light, EdgeKind::Light, EdgeKind::Heavy, EdgeKind::Heavy) => Some(
            '\u{2549}',
        ),
        _ => None,
    }
}

/// The box-drawing character over the north, east, south and west edges: the
/// heavy glyph of the shape where every edge is heavy, the mixed one where the
/// weights have a glyph of their own, and the light one otherwise.
pub open spec fn box_glyph(n: EdgeKind, e: EdgeKind, s: EdgeKind, w: EdgeKind) -> char {
    let none = EdgeKind::Absent;
    if n != EdgeKind::Light && e != EdgeKind::Light && s != EdgeKind::Light && w
        != EdgeKind::Light {
        heavy_shape(n != none, e != none, s != none, w != none)
    } else {
        match mixed_shape(n, e, s, w) {
            Some(glyph) => glyph,
            None => light_shape(n != none, e != none, s != none, w != none),
        }
    }
}

/// The glyph of a cell with these edges.
pub open spec fn glyph_of(edges: DividerEdges) -> char {
    box_glyph(
        kind_of(edges.north),
        kind_of(edges.east),
        kind_of(edges.south),
        kind_of(edges.west),
    )
}

fn light_glyph(n: bool, e: bool, s: bool, w: bool) -> (ch: char)
    ensures
        ch == light_shape(n, e, s, w),
{
    match (n, e, s, w) {
        (true, false, true, false) => '\u{2502}',
        (true, false, false, false) => '\u{2502}',
        (false, false, true, false) => '\u{2502}',
        (false, true, false, true) => '\u{2500}',
        (false, true, false, false) => '\u{2500}',
        (false, false, false, true) => '\u{2500}',
        (false, true, true, false) => '\u{250C}',
        (false, false, true, true) => '\u{2510}',
        (true, true, false, false) => '\u{2514}',
        (true, false, false, true) => '\u{2518}',
        (true, true, true, false) => '\u{251C}',
        (true, false, true, true) => '\u{2524}',
        (false, true, true, true) => '\u{252C}',
        (true, true, false, true) => '\u{2534}',
        (true, true, true, true) => '\u{253C}',
        _ => ' ',
    }
}

fn heavy_glyph(n: bool, e: bool, s: bool, w: bool) -> (ch: char)
    ensures
        ch == heavy_shape(n, e, s, w),
{
    match (n, e, s, w) {
        (true, false, true, false) => '\u{2503}',
        (true, false, false, false) => '\u{2503}',
        (false, false, true, false) => '\u{2503}',
        (false, true, false, true) => '\u{2501}',
        (false, true, false, false) => '\u{2501}',
        (false, false, false, true) => '\u{2501}',
        (false, true, true, false) => '\u{250F}',
        (false, false, true, true) => '\u{2513}',
        (true, true, false, false) => '\u{2517}',
        (true, false, false, true) => '\u{251B}',
        (true, true, true, false) => '\u{2523}',
        (true, false, true, true) => '\u{252B}',
        (false, true, true, true) => '\u{2533}',
        (true, true, false, true) => '\u{253B}',
        (true, true, true, true) => '\u{254B}',
        _ => ' ',
    }
}

fn mixed_glyph(n: EdgeKind, e: EdgeKind, s: EdgeKind, w: EdgeKind) -> (ch: Option<char>)
    ensures
        ch == mixed_shape(n, e, s, w),
{
    match (n, e, s, w) {
        (EdgeKind::Heavy, EdgeKind::Light, EdgeKind::Heavy, EdgeKind::Absent) => Some(
            '\u{2520}',
        ),
        (EdgeKind::Light, EdgeKind::Heavy, EdgeKind::Light, EdgeKind::Absent) => Some(
            '\u{251D}',
        ),
        (EdgeKind::Heavy, EdgeKind::Absent, EdgeKind::Heavy, EdgeKind::Light) => Some(
            '\u{2528}',
        ),
        (EdgeKind::Light, EdgeKind::Absent, EdgeKind::Light, EdgeKind::Heavy) => Some(
            '\u{2525}',
        ),
        (EdgeKind::Absent, EdgeKind::Heavy, EdgeKind::Light, EdgeKind::Heavy) => Some(
            '\u{252F}',
        ),
        (EdgeKind::Absent, EdgeKind::Light, EdgeKind::Heavy, EdgeKind::Light) => Some(
            '\u{2530}',
        ),
        (EdgeKind::Light, EdgeKind::Heavy, EdgeKind::Absent, EdgeKind::Heavy) => Some(
            '\u{2537}',
        ),
        (EdgeKind::Heavy, EdgeKind::Light, EdgeKind::Absent, EdgeKind::Light) => Some(
            '\u{2538}',
        ),
        (EdgeKind::Heavy, EdgeKind::Light, EdgeKind::Heavy, EdgeKind::Light) => Some(
            '\u{2542}',
        ),
        (EdgeKind::Light, EdgeKind::Heavy, EdgeKind::Light, EdgeKind::Heavy) => Some(
            '\u{253F}',
        ),
        (EdgeKind::Light, EdgeKind::Heavy, EdgeKind::Heavy, EdgeKind::Light) => Some(
            '\u{2545}',
        ),
        (EdgeKind::Heavy, EdgeKind::Heavy, EdgeKind::Light, EdgeKind::Light) => Some(
            '\u{2546}',
        ),
        (EdgeKind::Heavy, EdgeKind::Light, EdgeKind::Light, EdgeKind::Heavy) => Some(
            '\u{2548}',
        ),
        (EdgeKind::Light, EdgeKind::Light, EdgeKind::Heavy, EdgeKind::Heavy) => Some(
            '\u{2549}',
        ),
        _ => None,
    }
}

/// Pick the box-drawing character for a cell from its four edges.
pub fn pick_box_char(
    north: Option<bool>,
    east: Option<bool>,
    south: Option<bool>,
    west: Option<bool>,
) -> (ch: char)
    ensures
        ch == glyph_of(DividerEdges { north, east, south, west }),
{
    let n = edge_kind(north);
    let e = edge_kind(east);
    let s = edge_kind(south);
    let w = edge_kind(west);
    let (pn, pe, ps, pw) = (north.is_some(), east.is_some(), south.is_some(), west.is_some());
    if n != EdgeKind::Light && e != EdgeKind::Light && s != EdgeKind::Light && w
        != EdgeKind::Light {
        return heavy_glyph(pn, pe, ps, pw);
    }
    match mixed_glyph(n, e, s, w) {
        Some(ch) => ch,
        None => light_glyph(pn, pe, ps, pw),
    }
}

/// The last cell along the line that is still in the viewport's long axis.
pub open spec fn clipped_end(seg: SegmentView, viewport: (u16, u16)) -> int {
    match seg.split {
        SplitDir::Horizontal => min_of(seg.a1, viewport.1 - 1),
        SplitDir::Vertical => min_of(seg.a1, viewport.0 - 1),
    }
}

/// The line's column or row is in the viewport. One without columns or rows has
/// none.
pub open spec fn on_screen(seg: SegmentView, viewport: (u16, u16)) -> bool {
    match seg.split {
        SplitDir::Horizontal => seg.cross < viewport.0 && viewport.1 > 0,
        SplitDir::Vertical => seg.cross < viewport.1 && viewport.0 > 0,
    }
}

/// The cell at position `a` along the line.
pub open spec fn line_spot(seg: SegmentView, a: int) -> Spot {
    match seg.split {
        SplitDir::Horizontal => (seg.cross, a),
        SplitDir::Vertical => (a, seg.cross),
    }
}

/// The position along the line of a cell on it.
pub open spec fn along(seg: SegmentView, spot: Spot) -> int {
    match seg.split {
        SplitDir::Horizontal => spot.1,
        SplitDir::Vertical => spot.0,
    }
}

/// The line's cells inside the viewport, in order along it.
pub open spec fn line_cells(seg: SegmentView, viewport: (u16, u16)) -> Seq<Spot> {
    if on_screen(seg, viewport) && seg.a0 <= clipped_end(seg, viewport) {
        Seq::new(
            (clipped_end(seg, viewport) - seg.a0 + 1) as nat,
            |i: int| line_spot(seg, seg.a0 + i),
        )
    } else {
        Seq::empty()
    }
}

/// `spot` is on the line, at a position in `lo..hi`.
pub open spec fn in_span(seg: SegmentView, spot: Spot, lo: int, hi: int) -> bool {
    line_spot(seg, along(seg, spot)) == spot && lo <= along(seg, spot) < hi
}

/// The edges of a line's cell at position `a`, over the edges it has already:
/// one back along the line unless it is the first, one ahead unless it is the
/// last.
pub open spec fn line_edges(
    was: DividerEdges,
    seg: SegmentView,
    a: int,
    heavy: bool,
) -> DividerEdges {
    let back = a > seg.a0;
    let ahead = a < seg.a1;
    match seg.split {
        SplitDir::Horizontal => DividerEdges {
            north: if back {
                Some(heavy)
            } else {
                was.north
            },
            south: if ahead {
                Some(heavy)
            } else {
                was.south
            },
            ..was
        },
        SplitDir::Vertical => DividerEdges {
            west: if back {
                Some(heavy)
            } else {
                was.west
            },
            east: if ahead {
                Some(heavy)
            } else {
                was.east
            },
            ..was
        },
    }
}

/// The grid after the line's cells at positions `lo..hi` are laid down.
pub open spec fn laid_span(
    grid: EdgeMap,
    seg: SegmentView,
    heavy: bool,
    lo: int,
    hi: int,
) -> EdgeMap {
    Map::new(
        |s: Spot| grid.contains_key(s) || in_span(seg, s, lo, hi),
        |s: Spot|
            if in_span(seg, s, lo, hi) {
                line_edges(edges_at(grid, s), seg, along(seg, s), heavy)
            } else {
                grid[s]
            },
    )
}

/// The grid after the line is laid down, as far as it is in the viewport.
pub open spec fn laid(
    grid: EdgeMap,
    seg: SegmentView,
    heavy: bool,
    viewport: (u16, u16),
) -> EdgeMap {
    if on_screen(seg, viewport) {
        laid_span(grid, seg, heavy, seg.a0, clipped_end(seg, viewport) + 1)
    } else {
        grid
    }
}

pub open spec fn saturated(n: int) -> int {
    min_of(n, u16::MAX as int)
}

/// The `len` cells from `start` on share a cell with the line's length.
pub open spec fn overlaps_length(start: int, len: int, seg: SegmentView) -> bool {
    max_of(start, seg.a0) < min_of(start + len, seg.a1 + 1)
}

/// The rectangle shares an edge with the line: it starts just past it or ends
/// at it, and overlaps its length.
pub open spec fn borders_line(r: Area, seg: SegmentView) -> bool {
    match seg.split {
        SplitDir::Horizontal => {
            &&& r.x == seg.cross + 1 || r.x + r.w == seg.cross
            &&& overlaps_length(r.y, r.h, seg)
        },
        SplitDir::Vertical => {
            &&& r.y == seg.cross + 1 || r.y + r.h == seg.cross
            &&& overlaps_length(r.x, r.w, seg)
        },
    }
}

/// The line is on the focused pane's border: the pane is on one of its sides
/// and its rectangle touches it.
pub open spec fn touches_focus(
    seg: SegmentView,
    focus: Option<TerminalId>,
    rects: Seq<(TerminalId, Area)>,
) -> bool {
    match focus {
        None => false,
        Some(id) => (seg.low.contains(id) || seg.high.contains(id)) && match rect_of(rects, id) {
            None => false,
            Some(r) => borders_line(r, seg),
        },
    }
}

/// The grid of all lines, laid down in order.
pub open spec fn laid_all(
    segments: Seq<SegmentView>,
    focus: Option<TerminalId>,
    rects: Seq<(TerminalId, Area)>,
    viewport: (u16, u16),
) -> EdgeMap
    decreases segments.len(),
{
    if segments.len() == 0 {
        Map::empty()
    } else {
        let seg = segments.last();
        laid(
            laid_all(segments.drop_last(), focus, rects, viewport),
            seg,
            touches_focus(seg, focus, rects),
            viewport,
        )
    }
}

pub open spec fn first_of(a: Option<bool>, b: Option<bool>) -> Option<bool> {
    if a is Some {
        a
    } else {
        b
    }
}

/// A cell's edges after it takes one toward each neighbouring divider cell it
/// has none toward. It takes the weight of the edge the neighbour points back
/// with or, lacking that, the one it points on with.
pub open spec fn joined(grid: EdgeMap, spot: Spot) -> DividerEdges {
    let me = grid[spot];
    let n = edges_at(grid, (spot.0, spot.1 - 1));
    let s = edges_at(grid, (spot.0, spot.1 + 1));
    let e = edges_at(grid, (spot.0 + 1, spot.1));
    let w = edges_at(grid, (spot.0 - 1, spot.1));
    DividerEdges {
        north: first_of(me.north, first_of(n.south, n.north)),
        south: first_of(me.south, first_of(s.north, s.south)),
        east: first_of(me.east, first_of(e.west, e.east)),
        west: first_of(me.west, first_of(w.east, w.west)),
    }
}

/// Join the divider cells among `order`, one after the other.
pub open spec fn join_over(grid: EdgeMap, order: Seq<Spot>) -> EdgeMap
    decreases order.len(),
{
    if order.len() == 0 {
        grid
    } else {
        let before = join_over(grid, order.drop_last());
        if before.contains_key(order.last()) {
            before.insert(order.last(), joined(before, order.last()))
        } else {
            before
        }
    }
}

/// The cells of a list of coordinates.
pub open spec fn spots_of(coords: Seq<(u16, u16)>) -> Seq<Spot> {
    Seq::new(coords.len(), |i: int| (coords[i].0 as int, coords[i].1 as int))
}

/// The finished grid of a set of lines.
pub open spec fn joined_grid(
    segments: Seq<SegmentView>,
    focus: Option<TerminalId>,
    rects: Seq<(TerminalId, Area)>,
    viewport: (u16, u16),
) -> EdgeMap {
    let grid = laid_all(segments, focus, rects, viewport);
    join_over(grid, row_major(grid))
}

/// `cells` are the grid's cells in row-major order, each with its glyph.
pub open spec fn resolves(cells: Seq<DividerCell>, grid: EdgeMap) -> bool {
    &&& lists(Seq::new(cells.len(), |i: int| cells[i].spot()), grid.dom())
    &&& forall|i: int|
        0 <= i < cells.len() ==> (#[trigger] cells[i]).ch == glyph_of(grid[cells[i].spot()])
}

/// No divider cell is at a coordinate whose successor is not a `u16`.
pub open spec fn inside_u16(grid: EdgeMap) -> bool {
    forall|s: Spot| #[trigger]
        grid.contains_key(s) ==> 0 <= s.0 < u16::MAX && 0 <= s.1 < u16::MAX
}

fn contains_id(ids: &Vec<TerminalId>, id: TerminalId) -> (found: bool)
    ensures
        found == ids@.contains(id),
{
    let mut i: usize = 0;
    while i < ids.len()
        invariant
            i <= ids.len(),
            forall|j: int| 0 <= j < i ==> ids@[j] != id,
        decreases ids.len() - i,
    {
        if ids[i] == id {
            return true;
        }
        i = i + 1;
    }
    false
}

/// Do the `len` cells from `start` on share a cell with the line's length?
fn overlaps_line(start: u16, len: u16, seg: &DividerSegment) -> (b: bool)
    ensures
        b == overlaps_length(start as int, len as int, seg@),
{
    let low: u32 = if start > seg.a0 {
        start as u32
    } else {
        seg.a0 as u32
    };
    low < start as u32 + len as u32 && low <= seg.a1 as u32
}

/// Does the rectangle share an edge with a vertical line?
fn rect_borders_vertical_line(rect: Rect, seg: &DividerSegment) -> (b: bool)
    requires
        seg.split == SplitDir::Horizontal,
    ensures
        b == borders_line(rect@, seg@),
{
    let cross: u32 = seg.cross as u32;
    let adjacent_x = rect.x as u32 == cross + 1 || rect.x as u32 + rect.w as u32 == cross;
    adjacent_x && overlaps_line(rect.y, rect.h, seg)
}

/// Mirror of [`rect_borders_vertical_line`] for a horizontal line.
fn rect_borders_horizontal_line(rect: Rect, seg: &DividerSegment) -> (b: bool)
    requires
        seg.split == SplitDir::Vertical,
    ensures
        b == borders_line(rect@, seg@),
{
    let cross: u32 = seg.cross as u32;
    let adjacent_y = rect.y as u32 == cross + 1 || rect.y as u32 + rect.h as u32 == cross;
    adjacent_y && overlaps_line(rect.x, rect.w, seg)
}

/// Does the line touch the focused pane?
pub fn segment_heavy(seg: &DividerSegment, focus: Option<TerminalId>, rects: &PaneRects) -> (h: bool)
    ensures
        h == touches_focus(seg@, focus, rects@),
{
    let id = match focus {
        Some(id) => id,
        None => {
            return false;
        },
    };
    if !(contains_id(&seg.low_leaves, id) || contains_id(&seg.high_leaves, id)) {
        return false;
    }
    match rects.get(id) {
        None => false,
        Some(rect) => match seg.split {
            SplitDir::Horizontal => rect_borders_vertical_line(rect, seg),
            SplitDir::Vertical => rect_borders_horizontal_line(rect, seg),
        },
    }
}

fn edges_or_none(grid: &EdgeGrid, x: u16, y: u16) -> (e: DividerEdges)
    requires
        grid.wf(),
    ensures
        e == edges_at(grid@, (x as int, y as int)),
{
    match grid.get(x, y) {
        Some(e) => e,
        None => DividerEdges { north: None, east: None, south: None, west: None },
    }
}

pub proof fn lemma_span_step(grid: EdgeMap, seg: SegmentView, heavy: bool, lo: int, a: int)
    requires
        lo <= a,
    ensures
        laid_span(grid, seg, heavy, lo, lo) =~= grid,
        edges_at(laid_span(grid, seg, heavy, lo, a), line_spot(seg, a)) == edges_at(
            grid,
            line_spot(seg, a),
        ),
        laid_span(grid, seg, heavy, lo, a + 1) =~= laid_span(grid, seg, heavy, lo, a).insert(
            line_spot(seg, a),
            line_edges(edges_at(grid, line_spot(seg, a)), seg, a, heavy),
        ),
{
}

/// Lay down a vertical line: its column, row by row.
fn lay_down_vertical_line(
    grid: &mut EdgeGrid,
    seg: &DividerSegment,
    heavy: bool,
    vcols: u16,
    vrows: u16,
)
    requires
        old(grid).wf(),
        seg.split == SplitDir::Horizontal,
    ensures
        final(grid).wf(),
        final(grid)@ == laid(old(grid)@, seg@, heavy, (vcols, vrows)),
{
    let ghost was = grid@;
    let x = seg.cross;
    if x >= vcols || vrows == 0 {
        return;
    }
    let rows_end: u16 = vrows - 1;
    let end: u16 = if seg.a1 <= rows_end {
        seg.a1
    } else {
        rows_end
    };
    let mut y: u16 = seg.a0;
    proof {
        lemma_span_step(was, seg@, heavy, seg.a0 as int, seg.a0 as int);
        assert(laid(was, seg@, heavy, (vcols, vrows)) =~= if seg.a0 > end {
            was
        } else {
            laid_span(was, seg@, heavy, seg.a0 as int, end + 1)
        });
    }
    while y <= end
        invariant
            grid.wf(),
            seg.a0 <= y,
            y <= end + 1 || y == seg.a0,
            end < u16::MAX,
            x == seg.cross,
            seg.split == SplitDir::Horizontal,
            grid@ == laid_span(was, seg@, heavy, seg.a0 as int, y as int),
        decreases end + 1 - y,
    {
        let mut cell = edges_or_none(grid, x, y);
        proof {
            lemma_span_step(was, seg@, heavy, seg.a0 as int, y as int);
        }
        if y > seg.a0 {
            cell.north = Some(heavy);
        }
        if y < seg.a1 {
            cell.south = Some(heavy);
        }
        grid.set(x, y, cell);
        y = y + 1;
    }
}

/// Lay down a horizontal line: its row, column by column.
fn lay_down_horizontal_line(
    grid: &mut EdgeGrid,
    seg: &DividerSegment,
    heavy: bool,
    vcols: u16,
    vrows: u16,
)
    requires
        old(grid).wf(),
        seg.split == SplitDir::Vertical,
    ensures
        final(grid).wf(),
        final(grid)@ == laid(old(grid)@, seg@, heavy, (vcols, vrows)),
{
    let ghost was = grid@;
    let y = seg.cross;
    if y >= vrows || vcols == 0 {
        return;
    }
    let cols_end: u16 = vcols - 1;
    let end: u16 = if seg.a1 <= cols_end {
        seg.a1
    } else {
        cols_end
    };
    let mut x: u16 = seg.a0;
    proof {
        lemma_span_step(was, seg@, heavy, seg.a0 as int, seg.a0 as int);
        assert(laid(was, seg@, heavy, (vcols, vrows)) =~= if seg.a0 > end {
            was
        } else {
            laid_span(was, seg@, heavy, seg.a0 as int, end + 1)
        });
    }
    while x <= end
        invariant
            grid.wf(),
            seg.a0 <= x,
            x <= end + 1 || x == seg.a0,
            end < u16::MAX,
            y == seg.cross,
            seg.split == SplitDir::Vertical,
            grid@ == laid_span(was, seg@, heavy, seg.a0 as int, x as int),
        decreases end + 1 - x,
    {
        let mut cell = edges_or_none(grid, x, y);
        proof {
            lemma_span_step(was, seg@, heavy, seg.a0 as int, x as int);
        }
        if x > seg.a0 {
            cell.west = Some(heavy);
        }
        if x < seg.a1 {
            cell.east = Some(heavy);
        }
        grid.set(x, y, cell);
        x = x + 1;
    }
}

/// Lay down one line's cells with their edges.
fn lay_down_segment(grid: &mut EdgeGrid, seg: &DividerSegment, heavy: bool, viewport: (u16, u16))
    requires
        old(grid).wf(),
    ensures
        final(grid).wf(),
        final(grid)@ == laid(old(grid)@, seg@, heavy, viewport),
{
    let (vcols, vrows) = viewport;
    match seg.split {
        SplitDir::Horizontal => lay_down_vertical_line(grid, seg, heavy, vcols, vrows),
        SplitDir::Vertical => lay_down_horizontal_line(grid, seg, heavy, vcols, vrows),
    }
}

fn either(a: Option<bool>, b: Option<bool>) -> (r: Option<bool>)
    ensures
        r == first_of(a, b),
{
    match a {
        Some(v) => Some(v),
        None => b,
    }
}

/// The edges of the cell at `(x, y)` once it has joined its neighbours.
fn join_cell(grid: &EdgeGrid, x: u16, y: u16, edges: DividerEdges) -> (e: DividerEdges)
    requires
        grid.wf(),
        inside_u16(grid@),
        grid@.contains_key((x as int, y as int)),
        edges == grid@[(x as int, y as int)],
    ensures
        e == joined(grid@, (x as int, y as int)),
{
    let none = DividerEdges { north: None, east: None, south: None, west: None };
    proof {
        assert(x < u16::MAX && y < u16::MAX);
        assert(!grid@.contains_key((x as int, -1int)));
        assert(!grid@.contains_key((-1int, y as int)));
    }
    let north = if y > 0 {
        edges_or_none(grid, x, y - 1)
    } else {
        none
    };
    let west = if x > 0 {
        edges_or_none(grid, x - 1, y)
    } else {
        none
    };
    let east = edges_or_none(grid, x + 1, y);
    let south = edges_or_none(grid, x, y + 1);
    DividerEdges {
        north: either(edges.north, either(north.south, north.north)),
        south: either(edges.south, either(south.north, south.south)),
        east: either(edges.east, either(east.west, east.east)),
        west: either(edges.west, either(west.east, west.west)),
    }
}

/// Joining cells of the grid changes no cell's place.
pub proof fn lemma_join_keeps_cells(grid: EdgeMap, order: Seq<Spot>)
    ensures
        join_over(grid, order).dom() == grid.dom(),
    decreases order.len(),
{
    if order.len() > 0 {
        lemma_join_keeps_cells(grid, order.drop_last());
        assert(join_over(grid, order).dom() =~= grid.dom());
    }
}

/// Join lines where they meet: every cell of `order` takes an edge toward each
/// divider cell beside it, one after the other.
fn inherit_junction_edges(grid: &mut EdgeGrid, order: &Vec<(u16, u16)>)
    requires
        old(grid).wf(),
        inside_u16(old(grid)@),
    ensures
        final(grid).wf(),
        final(grid)@ == join_over(old(grid)@, spots_of(order@)),
        final(grid)@.dom() == old(grid)@.dom(),
{
    let ghost was = grid@;
    let ghost spots = spots_of(order@);
    proof {
        assert(spots.take(0) =~= Seq::<Spot>::empty());
    }
    let mut i: usize = 0;
    while i < order.len()
        invariant
            i <= order.len(),
            spots == spots_of(order@),
            grid.wf(),
            inside_u16(was),
            grid@ == join_over(was, spots.take(i as int)),
            grid@.dom() == was.dom(),
        decreases order.len() - i,
    {
        let (x, y) = order[i];
        proof {
            assert(inside_u16(grid@)) by {
                assert forall|s: Spot| #[trigger] grid@.contains_key(s) implies 0 <= s.0 < u16::MAX
                    && 0 <= s.1 < u16::MAX by {
                    assert(was.contains_key(s));
                }
            }
            assert(spots.take(i + 1).drop_last() =~= spots.take(i as int));
            assert(spots.take(i + 1).last() == (x as int, y as int));
        }
        match grid.get(x, y) {
            Some(edges) => {
                let edges = join_cell(grid, x, y, edges);
                grid.set(x, y, edges);
                proof {
                    assert(grid@.dom() =~= was.dom());
                }
            },
            None => {},
        }
        i = i + 1;
    }
    proof {
        assert(spots.take(i as int) =~= spots);
    }
}

/// The coordinates of the grid's cells, in row-major order.
fn cell_coords(grid: &EdgeGrid) -> (order: Vec<(u16, u16)>)
    requires
        grid.wf(),
    ensures
        spots_of(order@) == row_major(grid@),
{
    proof {
        grid.lemma_order();
    }
    let n = grid.len();
    let mut order: Vec<(u16, u16)> = Vec::new();
    let mut i: usize = 0;
    while i < n
        invariant
            i <= n,
            n == grid.order().len(),
            grid.wf(),
            order@.len() == i,
            forall|j: int|
                0 <= j < i ==> ((#[trigger] order@[j]).0 as int, order@[j].1 as int)
                    == grid.order()[j],
        decreases n - i,
    {
        let c = grid.cell(i);
        order.push((c.x, c.y));
        i = i + 1;
    }
    proof {
        assert(spots_of(order@) =~= grid.order());
    }
    order
}

/// Resolve every grid cell to its glyph, in row-major order.
fn into_divider_cells(grid: &EdgeGrid) -> (cells: Vec<DividerCell>)
    requires
        grid.wf(),
    ensures
        resolves(cells@, grid@),
{
    let ghost order = grid.order();
    proof {
        grid.lemma_order();
    }
    let n = grid.len();
    let mut cells: Vec<DividerCell> = Vec::new();
    let mut i: usize = 0;
    while i < n
        invariant
            i <= n,
            n == order.len(),
            grid.wf(),
            order == grid.order(),
            cells@.len() == i,
            forall|j: int|
                0 <= j < i ==> (#[trigger] cells@[j]).spot() == order[j] && cells@[j].ch
                    == glyph_of(grid@[order[j]]),
        decreases n - i,
    {
        let c = grid.cell(i);
        let ch = pick_box_char(c.edges.north, c.edges.east, c.edges.south, c.edges.west);
        cells.push(DividerCell { x: c.x, y: c.y, ch });
        i = i + 1;
    }
    proof {
        assert(Seq::new(cells@.len(), |i: int| cells@[i].spot()) =~= order);
    }
    cells
}

/// Laying down lines keeps the grid clear of the last `u16` row and column.
proof fn lemma_laid_inside_u16(
    segments: Seq<SegmentView>,
    focus: Option<TerminalId>,
    rects: Seq<(TerminalId, Area)>,
    viewport: (u16, u16),
)
    requires
        forall|i: int|
            0 <= i < segments.len() ==> 0 <= (#[trigger] segments[i]).a0 && 0 <= segments[i].cross,
    ensures
        inside_u16(laid_all(segments, focus, rects, viewport)),
    decreases segments.len(),
{
    if segments.len() > 0 {
        assert forall|i: int| 0 <= i < segments.drop_last().len() implies 0 <= (
        #[trigger] segments.drop_last()[i]).a0 && 0 <= segments.drop_last()[i].cross by {
            assert(segments.drop_last()[i] == segments[i]);
        }
        lemma_laid_inside_u16(segments.drop_last(), focus, rects, viewport);
        assert(segments.last() == segments[segments.len() - 1]);
    }
}

/// The grid of the lines, heavy where a line touches the focused pane.
fn lay_down_all(
    segments: &Vec<DividerSegment>,
    focus: Option<TerminalId>,
    rects: &PaneRects,
    viewport: (u16, u16),
) -> (grid: EdgeGrid)
    ensures
        grid.wf(),
        inside_u16(grid@),
        grid@ == laid_all(segment_views(segments@), focus, rects@, viewport),
{
    let ghost views = segment_views(segments@);
    let mut grid = EdgeGrid::new();
    let mut i: usize = 0;
    proof {
        assert(views.take(0) =~= Seq::<SegmentView>::empty());
    }
    while i < segments.len()
        invariant
            i <= segments.len(),
            views == segment_views(segments@),
            grid.wf(),
            grid@ == laid_all(views.take(i as int), focus, rects@, viewport),
        decreases segments.len() - i,
    {
        let heavy = segment_heavy(&segments[i], focus, rects);
        lay_down_segment(&mut grid, &segments[i], heavy, viewport);
        proof {
            assert(views.take(i + 1).drop_last() =~= views.take(i as int));
            assert(views.take(i + 1).last() == segments@[i as int]@);
        }
        i = i + 1;
    }
    proof {
        assert(views.take(i as int) =~= views);
        lemma_laid_inside_u16(views, focus, rects@, viewport);
    }
    grid
}

/// Turn divider lines into the cells to paint, joining the cells in the given
/// order. What a cell takes from its neighbours can depend on which of them was
/// joined before it.
pub fn rasterize_in_order(
    segments: &Vec<DividerSegment>,
    focus: Option<TerminalId>,
    rects: &PaneRects,
    viewport: (u16, u16),
    order: &Vec<(u16, u16)>,
) -> (cells: Vec<DividerCell>)
    ensures
        resolves(
            cells@,
            join_over(
                laid_all(segment_views(segments@), focus, rects@, viewport),
                spots_of(order@),
            ),
        ),
{
    let mut grid = lay_down_all(segments, focus, rects, viewport);
    inherit_junction_edges(&mut grid, order);
    into_divider_cells(&grid)
}

/// Turn divider lines into the cells to paint: heavy where a line touches the
/// focused pane, joined where lines meet, in row-major order.
pub fn rasterize(
    segments: &Vec<DividerSegment>,
    focus: Option<TerminalId>,
    rects: &PaneRects,
    viewport: (u16, u16),
) -> (cells: Vec<DividerCell>)
    ensures
        resolves(cells@, joined_grid(segment_views(segments@), focus, rects@, viewport)),
{
    let mut grid = lay_down_all(segments, focus, rects, viewport);
    let order = cell_coords(&grid);
    inherit_junction_edges(&mut grid, &order);
    into_divider_cells(&grid)
}

/// The grab map of the same lines that [`rasterize`] paints: one entry per
/// line, with the cells of it that are in the viewport.
pub fn divider_hits(segments: &Vec<DividerSegment>, viewport: (u16, u16)) -> (hits: Vec<DividerHit>)
    ensures
        hits@.len() == segments@.len(),
        forall|i: int|
            0 <= i < hits@.len() ==> (#[trigger] hits@[i])@ == (HitView {
                path: segments@[i]@.path,
                axis: segments@[i]@.split,
                cells: line_cells(segments@[i]@, viewport),
            }),
{
    let mut hits: Vec<DividerHit> = Vec::new();
    let mut i: usize = 0;
    while i < segments.len()
        invariant
            i <= segments.len(),
            hits@.len() == i,
            forall|j: int|
                0 <= j < i ==> (#[trigger] hits@[j])@ == (HitView {
                    path: segments@[j]@.path,
                    axis: segments@[j]@.split,
                    cells: line_cells(segments@[j]@, viewport),
                }),
        decreases segments.len() - i,
    {
        let hit = divider_hit(&segments[i], viewport);
        hits.push(hit);
        i = i + 1;
    }
    hits
}

/// The grab target of one line.
fn divider_hit(seg: &DividerSegment, viewport: (u16, u16)) -> (hit: DividerHit)
    ensures
        hit@ == (HitView {
            path: seg@.path,
            axis: seg@.split,
            cells: line_cells(seg@, viewport),
        }),
{
    let (vcols, vrows) = viewport;
    let mut cells: Vec<(u16, u16)> = Vec::new();
    let (visible, len) = match seg.split {
        SplitDir::Horizontal => (seg.cross < vcols, vrows),
        SplitDir::Vertical => (seg.cross < vrows, vcols),
    };
    if visible && len > 0 {
        let last: u16 = len - 1;
        let end: u16 = if seg.a1 <= last {
            seg.a1
        } else {
            last
        };
        let mut a: u16 = seg.a0;
        while a <= end
            invariant
                seg.a0 <= a,
                a <= end + 1 || a == seg.a0,
                end < u16::MAX,
                cells@.len() == a - seg.a0,
                forall|i: int|
                    0 <= i < cells@.len() ==> ((#[trigger] cells@[i]).0 as int, cells@[i].1 as int)
                        == line_spot(seg@, seg.a0 + i),
            decreases end + 1 - a,
        {
            match seg.split {
                SplitDir::Horizontal => cells.push((seg.cross, a)),
                SplitDir::Vertical => cells.push((a, seg.cross)),
            }
            a = a + 1;
        }
    }
    let hit = DividerHit { node_path: seg.node_path.duplicate(), axis: seg.split, cells };
    proof {
        assert(hit@.cells =~= line_cells(seg@, viewport));
    }
    hit
}

} // verus!
