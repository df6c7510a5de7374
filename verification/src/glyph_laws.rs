//! Every glyph shows the edges of its cell.
use vstd::prelude::*;

use crate::grid::DividerEdges;
use crate::rasterize::{glyph_of, EdgeKind};

verus! {

/// The four arms of a box-drawing character: how it is drawn toward each side.
pub struct Arms {
    pub north: EdgeKind,
    pub east: EdgeKind,
    pub south: EdgeKind,
    pub west: EdgeKind,
}

pub open spec fn arms(north: EdgeKind, east: EdgeKind, south: EdgeKind, west: EdgeKind) -> Arms {
    Arms { north, east, south, west }
}

/// The arms of each box-drawing character, as its Unicode name tells them.
pub open spec fn arms_of(ch: char) -> Arms {
    let o = EdgeKind::Absent;
    let l = EdgeKind::Light;
    let h = EdgeKind::Heavy;
    if ch == '\u{2500}' {
        // Light horizontal.
        arms(o, l, o, l)
    } else if ch == '\u{2501}' {
        // Heavy horizontal.
        arms(o, h, o, h)
    } else if ch == '\u{2502}' {
        // Light vertical.
        arms(l, o, l, o)
    } else if ch == '\u{2503}' {
        // Heavy vertical.
        arms(h, o, h, o)
    } else if ch == '\u{250c}' {
        // Light down and right.
        arms(o, l, l, o)
    } else if ch == '\u{250f}' {
        // Heavy down and right.
        arms(o, h, h, o)
    } else if ch == '\u{2510}' {
        // Light down and left.
        arms(o, o, l, l)
    } else if ch == '\u{2513}' {
        // Heavy down and left.
        arms(o, o, h, h)
    } else if ch == '\u{2514}' {
        // Light up and right.
        arms(l, l, o, o)
    } else if ch == '\u{2517}' {
        // Heavy up and right.
        arms(h, h, o, o)
    } else if ch == '\u{2518}' {
        // Light up and left.
        arms(l, o, o, l)
    } else if ch == '\u{251b}' {
        // Heavy up and left.
        arms(h, o, o, h)
    } else if ch == '\u{251c}' {
        // Light vertical and right.
        arms(l, l, l, o)
    } else if ch == '\u{251d}' {
        // Vertical light and right heavy.
        arms(l, h, l, o)
    } else if ch == '\u{2520}' {
        // Vertical heavy and right light.
        arms(h, l, h, o)
    } else if ch == '\u{2523}' {
        // Heavy vertical and right.
        arms(h, h, h, o)
    } else if ch == '\u{2524}' {
        // Light vertical and left.
        arms(l, o, l, l)
    } else if ch == '\u{2525}' {
        // Vertical light and left heavy.
        arms(l, o, l, h)
    } else if ch == '\u{2528}' {
        // Vertical heavy and left light.
        arms(h, o, h, l)
    } else if ch == '\u{252b}' {
        // Heavy vertical and left.
        arms(h, o, h, h)
    } else if ch == '\u{252c}' {
        // Light down and horizontal.
        arms(o, l, l, l)
    } else if ch == '\u{252f}' {
        // Down light and horizontal heavy.
        arms(o, h, l, h)
    } else if ch == '\u{2530}' {
        // Down heavy and horizontal light.
        arms(o, l, h, l)
    } else if ch == '\u{2533}' {
        // Heavy down and horizontal.
        arms(o, h, h, h)
    } else if ch == '\u{2534}' {
        // Light up and horizontal.
        arms(l, l, o, l)
    } else if ch == '\u{2537}' {
        // Up light and horizontal heavy.
        arms(l, h, o, h)
    } else if ch == '\u{2538}' {
        // Up heavy and horizontal light.
        arms(h, l, o, l)
    } else if ch == '\u{253b}' {
        // Heavy up and horizontal.
        arms(h, h, o, h)
    } else if ch == '\u{253c}' {
        // Light vertical and horizontal.
        arms(l, l, l, l)
    } else if ch == '\u{253f}' {
        // Vertical light and horizontal heavy.
        arms(l, h, l, h)
    } else if ch == '\u{2542}' {
        // Vertical heavy and horizontal light.
        arms(h, l, h, l)
    } else if ch == '\u{2545}' {
        // Left down heavy and right up light.
        arms(l, l, h, h)
    } else if ch == '\u{2546}' {
        // Right down heavy and left up light.
        arms(l, h, h, l)
    } else if ch == '\u{2548}' {
        // Up light and down horizontal heavy.
        arms(l, h, h, h)
    } else if ch == '\u{2549}' {
        // Right light and left vertical heavy.
        arms(h, l, h, h)
    } else if ch == '\u{254b}' {
        // Heavy vertical and horizontal.
        arms(h, h, h, h)
    } else {
        arms(o, o, o, o)
    }
}

/// The edges as arms.
pub open spec fn arms_wanted(edges: DividerEdges) -> Arms {
    arms(wanted(edges.north), wanted(edges.east), wanted(edges.south), wanted(edges.west))
}

pub open spec fn wanted(edge: Option<bool>) -> EdgeKind {
    if edge == Some(true) {
        EdgeKind::Heavy
    } else if edge == Some(false) {
        EdgeKind::Light
    } else {
        EdgeKind::Absent
    }
}

/// How many edges the cell has.
pub open spec fn edge_count(edges: DividerEdges) -> int {
    count(edges.north) + count(edges.east) + count(edges.south) + count(edges.west)
}

pub open spec fn count(edge: Option<bool>) -> int {
    if edge is Some {
        1
    } else {
        0
    }
}

/// Every edge of the cell, if it has one, has this weight.
pub open spec fn weighs(edges: DividerEdges, heavy: bool) -> bool {
    &&& edges.north is Some ==> edges.north == Some(heavy)
    &&& edges.east is Some ==> edges.east == Some(heavy)
    &&& edges.south is Some ==> edges.south == Some(heavy)
    &&& edges.west is Some ==> edges.west == Some(heavy)
}

/// The edges that go straight through the cell have one weight each: one line
/// runs up and down, or left and right, or both do.
pub open spec fn runs_straight_through(edges: DividerEdges) -> bool {
    &&& edges.north is Some && edges.south is Some ==> edges.north == edges.south
    &&& edges.east is Some && edges.west is Some ==> edges.east == edges.west
}

/// The glyph tells the edges: a cell with two edges or more is drawn with an arm
/// toward exactly the sides it has an edge toward.
pub proof fn law_a_glyph_has_an_arm_for_every_edge(edges: DividerEdges)
    requires
        edge_count(edges) >= 2,
    ensures
        ({
            let drawn = arms_of(glyph_of(edges));
            &&& drawn.north == EdgeKind::Absent <==> edges.north is None
            &&& drawn.east == EdgeKind::Absent <==> edges.east is None
            &&& drawn.south == EdgeKind::Absent <==> edges.south is None
            &&& drawn.west == EdgeKind::Absent <==> edges.west is None
        }),
{
}

/// A cell with one edge is drawn as the line that the edge is part of, and one
/// without edges is blank.
pub proof fn law_a_single_edge_is_drawn_as_its_line(edges: DividerEdges)
    requires
        edge_count(edges) <= 1,
    ensures
        edge_count(edges) == 0 ==> glyph_of(edges) == ' ',
        edges.north is Some ==> arms_of(glyph_of(edges)) == arms(
            wanted(edges.north),
            EdgeKind::Absent,
            wanted(edges.north),
            EdgeKind::Absent,
        ),
        edges.south is Some ==> arms_of(glyph_of(edges)) == arms(
            wanted(edges.south),
            EdgeKind::Absent,
            wanted(edges.south),
            EdgeKind::Absent,
        ),
        edges.east is Some ==> arms_of(glyph_of(edges)) == arms(
            EdgeKind::Absent,
            wanted(edges.east),
            EdgeKind::Absent,
            wanted(edges.east),
        ),
        edges.west is Some ==> arms_of(glyph_of(edges)) == arms(
            EdgeKind::Absent,
            wanted(edges.west),
            EdgeKind::Absent,
            wanted(edges.west),
        ),
{
}

/// Edges of one weight are drawn in that weight.
pub proof fn law_one_weight_is_drawn_as_it_is(edges: DividerEdges, heavy: bool)
    requires
        edge_count(edges) >= 2,
        weighs(edges, heavy),
    ensures
        arms_of(glyph_of(edges)) == arms_wanted(edges),
{
}

/// Where lines of different weight run straight through a cell that has three
/// edges or more, each arm is drawn in its own weight.
pub proof fn law_crossing_lines_keep_their_weights(edges: DividerEdges)
    requires
        edge_count(edges) >= 3,
        runs_straight_through(edges),
    ensures
        arms_of(glyph_of(edges)) == arms_wanted(edges),
{
}

/// A mix of weights that neither is one weight nor runs straight through is drawn
/// light, except for a cross that is heavy toward two neighbouring sides, which
/// has a glyph of its own for each of the four.
pub proof fn law_other_mixes_are_drawn_light(edges: DividerEdges)
    requires
        edge_count(edges) >= 2,
        !weighs(edges, true),
        !weighs(edges, false),
        edge_count(edges) == 2 || !runs_straight_through(edges),
    ensures
        ({
            let (n, e, s, w) = (
                edges.north == Some(true),
                edges.east == Some(true),
                edges.south == Some(true),
                edges.west == Some(true),
            );
            let glyph = glyph_of(edges);
            if edge_count(edges) == 4 && n != s && e != w {
                glyph == (if e && s {
                    '\u{2545}'
                } else if n && e {
                    '\u{2546}'
                } else if n && w {
                    '\u{2548}'
                } else {
                    '\u{2549}'
                })
            } else {
                arms_of(glyph) == arms(
                    lightened(edges.north),
                    lightened(edges.east),
                    lightened(edges.south),
                    lightened(edges.west),
                )
            }
        }),
{
}

pub open spec fn lightened(edge: Option<bool>) -> EdgeKind {
    if edge is Some {
        EdgeKind::Light
    } else {
        EdgeKind::Absent
    }
}

/// Two cells of one weight with two edges or more look alike only where their
/// edges are the same.
pub proof fn law_different_edges_look_different(a: DividerEdges, b: DividerEdges, heavy: bool)
    requires
        edge_count(a) >= 2,
        edge_count(b) >= 2,
        weighs(a, heavy),
        weighs(b, heavy),
        glyph_of(a) == glyph_of(b),
    ensures
        a == b,
{
    law_one_weight_is_drawn_as_it_is(a, heavy);
    law_one_weight_is_drawn_as_it_is(b, heavy);
}

} // verus!
