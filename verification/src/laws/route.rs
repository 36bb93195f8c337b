//! What a check of a route finds.

use crate::board::{IpcRoutingGeometry, PadView, PolygonView, RoutingView};
use crate::clearance::{
    courtyard_hits, courtyards_along, edge_hit, is_exempt, is_near, is_report, least, lies_in,
    lies_on, measured_along, measured_edge, measured_on, measured_pad, measured_track,
    measured_via, outline_of, overlap, polygon_hits, ClearanceReport, CourtyardHit, Measured,
    Obstacle, Outline, PolygonMeasures, RouteMeasures, RouteQuery, SegmentMeasures, SegmentPlace,
};
use crate::gather::{
    gather, gather_indexed, lemma_gather_in, lemma_gather_indexed_in, lemma_joined_in,
};
use crate::json::{AllowedPadView, Region};
use crate::messages::Vector2;
use crate::route_check::{
    has_outline, hits_edge, is_edge_check, is_near_route, is_relevant, is_route_check,
    reaches_corridor, unsupported_along, unsupported_arc, unsupported_pad, unsupported_reason,
    unsupported_zone, CorridorMeasures, EdgeCheck, RouteCheck, Unsupported, ZoneMeasures,
};
use crate::scalar::{infinity_spec, zero_spec, Point, Scalar};
use vstd::prelude::*;

verus! {

// What counts.

/// Whether two boxes meet, bounds included.
pub open spec fn boxes_meet(a: Region, b: Region) -> bool {
    &&& a.x_min.at_most(b.x_max) && b.x_min.at_most(a.x_max)
    &&& a.y_min.at_most(b.y_max) && b.y_min.at_most(a.y_max)
}

/// Whether a list of layers takes in one: it names it somewhere, or it is empty.
pub open spec fn takes_in(layers: Seq<Seq<char>>, layer: Seq<char>) -> bool {
    layers.len() == 0 || exists|k: int| 0 <= k < layers.len() && #[trigger] layers[k] == layer
}

/// Whether a shape is one whose outline can be reckoned with.
pub open spec fn is_outline_name(name: Seq<char>) -> bool {
    ||| name == "PssCircle"@ || name == "circle"@
    ||| name == "PssRectangle"@ || name == "rectangle"@
    ||| name == "PssOval"@ || name == "oval"@
    ||| name == "PssRoundrect"@ || name == "roundrect"@
}

/// Whether the outline of a pad is known.
pub open spec fn outline_known(pad: PadView) -> bool {
    pad.geometry_supported && pad.size is Some && match pad.shape {
        Some(name) => is_outline_name(name),
        None => false,
    }
}

/// Whether a distance is zero, of either sign.
pub open spec fn is_zero(distance: Scalar) -> bool {
    distance.bits == 0 || distance.bits == 0x8000_0000_0000_0000
}

/// Whether a pad is one of those that a route may touch.
pub open spec fn may_be_touched(pad: PadView, allowed: Seq<AllowedPadView>) -> bool {
    exists|k: int|
        0 <= k < allowed.len() && (#[trigger] allowed[k]).reference == pad.reference
            && allowed[k].pad == pad.number
}

/// Whether a segment touches a pad with an end of the route that may do so.
pub open spec fn touches_with_an_end(
    pad: PadView,
    i: int,
    q: RouteQuery,
    m: RouteMeasures,
    s: int,
) -> bool {
    &&& may_be_touched(pad, q.allowed)
    &&& outline_known(pad)
    &&& s == 0 && is_zero(m.start_distances@[i]) || s == m.segments@.len() - 1 && is_zero(
        m.end_distances@[i],
    )
}

/// Whether an object, at a gap, counts for a segment. A track counts where it is of another
/// net and on the layer; a via where it is of another net; a piece of the board's edge always.
/// A pad counts where it is of another net, its layers take in the layer, its box meets the
/// envelope of the segment, its outline is known, and the segment does not touch it with an
/// end of the route that may do so.
pub open spec fn counts(
    found: Measured,
    g: RoutingView,
    q: RouteQuery,
    m: RouteMeasures,
    s: int,
) -> bool {
    match found.object {
        Obstacle::Track(i) => {
            &&& i < g.tracks.items.len()
            &&& g.tracks.items[i as int].net_name != q.net
            &&& g.tracks.items[i as int].layer == q.layer
            &&& found.gap == m.segments@[s].tracks@[i as int]
        },
        Obstacle::Pad(i) => {
            let pad = g.pads.items[i as int];
            &&& i < g.pads.items.len()
            &&& pad.net_name != q.net
            &&& takes_in(pad.layers, q.layer)
            &&& boxes_meet(m.pad_boxes@[i as int], m.segments@[s].envelope)
            &&& outline_known(pad)
            &&& !touches_with_an_end(pad, i as int, q, m, s)
            &&& found.gap == m.segments@[s].pads@[i as int]
        },
        Obstacle::Via(i) => {
            &&& i < g.vias.items.len()
            &&& g.vias.items[i as int].net_name != q.net
            &&& found.gap == m.segments@[s].vias@[i as int]
        },
        Obstacle::BoardEdge(i) => {
            &&& i < g.board_edges.items.len()
            &&& found.gap == m.segments@[s].edges@[i as int]
        },
    }
}

spec fn fits_in_memory(g: RoutingView) -> bool {
    &&& g.tracks.items.len() <= usize::MAX
    &&& g.pads.items.len() <= usize::MAX
    &&& g.vias.items.len() <= usize::MAX
    &&& g.board_edges.items.len() <= usize::MAX
    &&& g.track_arcs.items.len() <= usize::MAX
    &&& g.zones.items.len() <= usize::MAX
    &&& g.courtyards.items.len() <= usize::MAX
}

proof fn lemma_fits_in_memory(g: IpcRoutingGeometry)
    ensures
        fits_in_memory(g.deep_view()),
{
    let v = g.deep_view();
    assert(v.tracks.items.len() == g.tracks.items.len());
    assert(v.pads.items.len() == g.pads.items.len());
    assert(v.vias.items.len() == g.vias.items.len());
    assert(v.board_edges.items.len() == g.board_edges.items.len());
    assert(v.track_arcs.items.len() == g.track_arcs.items.len());
    assert(v.zones.items.len() == g.zones.items.len());
    assert(v.courtyards.items.len() == g.courtyards.items.len());
}

proof fn lemma_one<B>(a: B, b: B)
    ensures
        seq![a].contains(b) <==> a == b,
        !Seq::<B>::empty().contains(b),
{
    assert(seq![a][0] == a);
}

proof fn lemma_counts(
    g: RoutingView,
    q: RouteQuery,
    m: RouteMeasures,
    s: int,
    found: Measured,
)
    requires
        fits_in_memory(g),
    ensures
        measured_on(g, q, m, s).contains(found) <==> counts(found, g, q, m, s),
{
    let tracks = gather_indexed(g.tracks.items, measured_track(q, m.segments@[s].tracks@));
    let pads = gather_indexed(g.pads.items, measured_pad(q, m, s));
    let vias = gather_indexed(g.vias.items, measured_via(q, m.segments@[s].vias@));
    let edges = gather_indexed(g.board_edges.items, measured_edge(m.segments@[s].edges@));
    lemma_joined_in(tracks + pads + vias, edges, found);
    lemma_joined_in(tracks + pads, vias, found);
    lemma_joined_in(tracks, pads, found);
    let track_pick = measured_track(q, m.segments@[s].tracks@);
    let pad_pick = measured_pad(q, m, s);
    let via_pick = measured_via(q, m.segments@[s].vias@);
    let edge_pick = measured_edge(m.segments@[s].edges@);
    lemma_gather_indexed_in(g.tracks.items, track_pick, found);
    lemma_gather_indexed_in(g.pads.items, pad_pick, found);
    lemma_gather_indexed_in(g.vias.items, via_pick, found);
    lemma_gather_indexed_in(g.board_edges.items, edge_pick, found);
    assert forall|i: int| 0 <= i < g.tracks.items.len() implies (track_pick(
        i,
        #[trigger] g.tracks.items[i],
    ).contains(found) <==> found.object == Obstacle::Track(i as usize) && counts(
        found,
        g,
        q,
        m,
        s,
    )) by {
        lemma_one(
            Measured { object: Obstacle::Track(i as usize), gap: m.segments@[s].tracks@[i] },
            found,
        );
    }
    assert forall|i: int| 0 <= i < g.pads.items.len() implies (pad_pick(
        i,
        #[trigger] g.pads.items[i],
    ).contains(found) <==> found.object == Obstacle::Pad(i as usize) && counts(
        found,
        g,
        q,
        m,
        s,
    )) by {
        lemma_one(
            Measured { object: Obstacle::Pad(i as usize), gap: m.segments@[s].pads@[i] },
            found,
        );
    }
    assert forall|i: int| 0 <= i < g.vias.items.len() implies (via_pick(
        i,
        #[trigger] g.vias.items[i],
    ).contains(found) <==> found.object == Obstacle::Via(i as usize) && counts(
        found,
        g,
        q,
        m,
        s,
    )) by {
        lemma_one(
            Measured { object: Obstacle::Via(i as usize), gap: m.segments@[s].vias@[i] },
            found,
        );
    }
    assert forall|i: int| 0 <= i < g.board_edges.items.len() implies (edge_pick(
        i,
        #[trigger] g.board_edges.items[i],
    ).contains(found) <==> found.object == Obstacle::BoardEdge(i as usize) && counts(
        found,
        g,
        q,
        m,
        s,
    )) by {
        lemma_one(
            Measured { object: Obstacle::BoardEdge(i as usize), gap: m.segments@[s].edges@[i] },
            found,
        );
    }
    match found.object {
        Obstacle::Track(i) => {
            if i < g.tracks.items.len() {
                let at: int = i as int;
                assert(track_pick(at, g.tracks.items[at]).contains(found) <==> counts(
                    found,
                    g,
                    q,
                    m,
                    s,
                ));
            }
        },
        Obstacle::Pad(i) => {
            if i < g.pads.items.len() {
                let at: int = i as int;
                assert(pad_pick(at, g.pads.items[at]).contains(found) <==> counts(
                    found,
                    g,
                    q,
                    m,
                    s,
                ));
            }
        },
        Obstacle::Via(i) => {
            if i < g.vias.items.len() {
                let at: int = i as int;
                assert(via_pick(at, g.vias.items[at]).contains(found) <==> counts(
                    found,
                    g,
                    q,
                    m,
                    s,
                ));
            }
        },
        Obstacle::BoardEdge(i) => {
            if i < g.board_edges.items.len() {
                let at: int = i as int;
                assert(edge_pick(at, g.board_edges.items[at]).contains(found) <==> counts(
                    found,
                    g,
                    q,
                    m,
                    s,
                ));
            }
        },
    }
}

/// Whether an object, at a gap, counts for some segment of a route.
pub open spec fn counts_along(
    found: Measured,
    g: RoutingView,
    q: RouteQuery,
    m: RouteMeasures,
) -> bool {
    exists|s: int| 0 <= s < m.segments@.len() && #[trigger] counts(found, g, q, m, s)
}

proof fn lemma_counts_along(g: RoutingView, q: RouteQuery, m: RouteMeasures, found: Measured)
    requires
        fits_in_memory(g),
    ensures
        measured_along(g, q, m).contains(found) <==> counts_along(found, g, q, m),
{
    let pick = |s: int, segment: SegmentMeasures| measured_on(g, q, m, s);
    lemma_gather_indexed_in(m.segments@, pick, found);
    assert forall|s: int| 0 <= s < m.segments@.len() implies (pick(
        s,
        #[trigger] m.segments@[s],
    ).contains(found) <==> counts(found, g, q, m, s)) by {
        lemma_counts(g, q, m, s, found);
    }
    if counts_along(found, g, q, m) {
        let s = choose|s: int| 0 <= s < m.segments@.len() && #[trigger] counts(found, g, q, m, s);
        assert(pick(s, m.segments@[s]).contains(found));
    }
}

/// A route conflicts with just the objects that count for one of its segments and are nearer
/// to it than the clearance, each at its gap.
pub proof fn a_route_conflicts_with_what_is_too_near(
    report: ClearanceReport,
    g: IpcRoutingGeometry,
    q: RouteQuery,
    m: RouteMeasures,
    clearance: Scalar,
    found: Measured,
)
    requires
        is_report(report, g.deep_view(), q, m, clearance),
    ensures
        report.conflicts@.contains(found) <==> counts_along(found, g.deep_view(), q, m)
            && found.gap.below(clearance),
{
    let v = g.deep_view();
    lemma_fits_in_memory(g);
    lemma_counts_along(v, q, m, found);
    let measured = measured_along(v, q, m);
    let keep = |one: Measured|
        if one.gap.below(clearance) {
            seq![one]
        } else {
            Seq::empty()
        };
    lemma_gather_in(measured, keep, found);
    assert forall|k: int| 0 <= k < measured.len() implies (keep(#[trigger] measured[k]).contains(
        found,
    ) <==> measured[k] == found && found.gap.below(clearance)) by {
        lemma_one(measured[k], found);
    }
    if measured.contains(found) {
        let k = choose|k: int| 0 <= k < measured.len() && measured[k] == found;
        assert(keep(measured[k]).contains(found) <==> found.gap.below(clearance));
    }
}

/// Every pad of another net whose layers are none or hold the layer of the route at whichever
/// place, whose box meets the envelope of a segment and whose outline is known, conflicts
/// where it is nearer than the clearance, unless the segment touches it with an end of the
/// route that may do so.
pub proof fn no_pad_on_the_layer_is_overlooked(
    report: ClearanceReport,
    g: IpcRoutingGeometry,
    q: RouteQuery,
    m: RouteMeasures,
    clearance: Scalar,
    s: int,
    i: int,
)
    requires
        is_report(report, g.deep_view(), q, m, clearance),
        0 <= s < m.segments@.len(),
        0 <= i < g.pads.items@.len(),
        ({
            let pad = g.deep_view().pads.items[i];
            &&& pad.net_name != q.net
            &&& pad.layers.len() == 0 || pad.layers.contains(q.layer)
            &&& boxes_meet(m.pad_boxes@[i], m.segments@[s].envelope)
            &&& outline_known(pad)
            &&& !touches_with_an_end(pad, i, q, m, s)
        }),
        m.segments@[s].pads@[i].below(clearance),
    ensures
        report.conflicts@.contains(
            (Measured { object: Obstacle::Pad(i as usize), gap: m.segments@[s].pads@[i] }),
        ),
        m.segments@[s].pads@[i].below(report.minimum) == false,
{
    let found = Measured { object: Obstacle::Pad(i as usize), gap: m.segments@[s].pads@[i] };
    let pad = g.deep_view().pads.items[i];
    assert(g.deep_view().pads.items.len() == g.pads.items.len());
    assert((i as usize) as int == i);
    if pad.layers.contains(q.layer) {
        let k = choose|k: int| 0 <= k < pad.layers.len() && pad.layers[k] == q.layer;
        assert(pad.layers[k] == q.layer);
    }
    assert(counts(found, g.deep_view(), q, m, s));
    a_route_conflicts_with_what_is_too_near(report, g, q, m, clearance, found);
    the_least_gap_of_a_route_is_attained(report, g, q, m, clearance);
}

proof fn lemma_least_of(measured: Seq<Measured>)
    ensures
        least(measured) == infinity_spec() || exists|k: int|
            0 <= k < measured.len() && (#[trigger] measured[k]).gap == least(measured),
        !least(measured).not_a_number(),
        forall|k: int|
            0 <= k < measured.len() ==> !(#[trigger] measured[k]).gap.below(least(measured)),
    decreases measured.len(),
{
    if measured.len() > 0 {
        let head = measured.drop_last();
        lemma_least_of(head);
        assert(measured.last() == measured[measured.len() - 1]);
        if exists|k: int| 0 <= k < head.len() && (#[trigger] head[k]).gap == least(head) {
            let k = choose|k: int| 0 <= k < head.len() && (#[trigger] head[k]).gap == least(head);
            assert(measured[k] == head[k]);
        }
        assert forall|k: int| 0 <= k < measured.len() implies !(#[trigger] measured[k]).gap.below(
            least(measured),
        ) by {
            if k < head.len() {
                assert(measured[k] == head[k]);
            }
        }
    }
}

/// The least gap of a route is the gap to an object that counts for one of its segments, or
/// infinite, and no object that counts is nearer.
pub proof fn the_least_gap_of_a_route_is_attained(
    report: ClearanceReport,
    g: IpcRoutingGeometry,
    q: RouteQuery,
    m: RouteMeasures,
    clearance: Scalar,
)
    requires
        is_report(report, g.deep_view(), q, m, clearance),
    ensures
        report.minimum == infinity_spec() || exists|found: Measured|
            #[trigger] counts_along(found, g.deep_view(), q, m) && found.gap == report.minimum,
        !report.minimum.not_a_number(),
        forall|found: Measured|
            #[trigger] counts_along(found, g.deep_view(), q, m) ==> !found.gap.below(
                report.minimum,
            ),
{
    let v = g.deep_view();
    lemma_fits_in_memory(g);
    let measured = measured_along(v, q, m);
    lemma_least_of(measured);
    if report.minimum != infinity_spec() {
        let k = choose|k: int|
            0 <= k < measured.len() && (#[trigger] measured[k]).gap == report.minimum;
        lemma_counts_along(v, q, m, measured[k]);
        assert(measured.contains(measured[k]));
        assert(counts_along(measured[k], v, q, m));
    }
    assert forall|found: Measured| #[trigger] counts_along(found, v, q, m) implies !found.gap.below(
        report.minimum,
    ) by {
        lemma_counts_along(v, q, m, found);
        let k = choose|k: int| 0 <= k < measured.len() && measured[k] == found;
        assert(!measured[k].gap.below(report.minimum));
    }
}

/// Whether a point lies in a box, bounds included.
pub open spec fn holds_point(r: Region, p: Point) -> bool {
    &&& r.x_min.at_most(p.x) && p.x.at_most(r.x_max)
    &&& r.y_min.at_most(p.y) && p.y.at_most(r.y_max)
}

/// Two boxes that have a point in common overlap, and two boxes with a point each that overlap
/// have one in common.
pub proof fn boxes_overlap_where_they_share_a_point(a: Region, b: Region, p: Point, of_b: Point)
    ensures
        holds_point(a, p) && holds_point(b, p) ==> overlap(a, b),
        overlap(a, b) && holds_point(a, p) && holds_point(b, of_b) ==> exists|shared: Point|
            holds_point(a, shared) && holds_point(b, shared),
{
    if overlap(a, b) && holds_point(a, p) && holds_point(b, of_b) {
        let x = if a.x_min.below(b.x_min) {
            b.x_min
        } else {
            a.x_min
        };
        let y = if a.y_min.below(b.y_min) {
            b.y_min
        } else {
            a.y_min
        };
        let shared = Point { x, y };
        assert(holds_point(a, shared) && holds_point(b, shared));
    }
}

/// The tests that a check makes of a pad, told by what the pad is: the layers take one in that
/// they name anywhere or where they are none; the pad is near where it has no size or its box
/// meets the envelope; an end lies in it where its outline is known and the distance is zero;
/// and it may be touched where it is named and an end of the route lies in it.
pub proof fn pads_are_tested_by_what_they_are(
    pad: PadView,
    layer: Seq<char>,
    own_box: Region,
    envelope: Region,
    allowed: Seq<AllowedPadView>,
    place: SegmentPlace,
    start: Scalar,
    end: Scalar,
)
    ensures
        lies_on(pad.layers, layer) <==> takes_in(pad.layers, layer),
        is_near(pad, own_box, envelope) <==> pad.size is None || boxes_meet(own_box, envelope),
        outline_of(pad) is Some <==> outline_known(pad),
        lies_in(pad, start) <==> outline_known(pad) && is_zero(start),
        is_exempt(pad, allowed, place, start, end) <==> may_be_touched(pad, allowed)
            && outline_known(pad) && (place.first && is_zero(start) || place.last && is_zero(end)),
        forall|k: int| 0 <= k < pad.layers.len() ==> lies_on(pad.layers, #[trigger] pad.layers[k]),
{
}

/// The outline of a pad is that which its shape names, with the rounding of its own corners.
pub proof fn an_outline_is_that_of_the_shape(pad: PadView)
    requires
        outline_known(pad),
    ensures
        ({
            let name = pad.shape->Some_0;
            let outline = outline_of(pad)->Some_0;
            &&& outline_of(pad) is Some
            &&& outline is Circle <==> name == "PssCircle"@ || name == "circle"@
            &&& outline is Rectangle <==> name == "PssRectangle"@ || name == "rectangle"@
            &&& outline is Oval <==> name == "PssOval"@ || name == "oval"@
            &&& outline is Roundrect <==> name == "PssRoundrect"@ || name == "roundrect"@
            &&& outline matches Outline::Roundrect { ratio } ==> match pad.corner_rounding_ratio {
                Some(own) => ratio == own,
                None => ratio.bits == 0,
            }
        }),
{
    reveal_strlit("PssCircle");
    reveal_strlit("circle");
    reveal_strlit("PssRectangle");
    reveal_strlit("rectangle");
    reveal_strlit("PssOval");
    reveal_strlit("oval");
    reveal_strlit("PssRoundrect");
    reveal_strlit("roundrect");
    assert("PssCircle"@[3] == 'C' && "PssRectangle"@[3] == 'R' && "PssOval"@[3] == 'O');
    assert("PssCircle"@.len() == 9 && "PssRectangle"@.len() == 12 && "PssOval"@.len() == 7);
    assert("PssRoundrect"@.len() == 12 && "PssRectangle"@[4] == 'e' && "PssRoundrect"@[4] == 'o');
    assert("circle"@.len() == 6 && "rectangle"@.len() == 9 && "oval"@.len() == 4);
    assert("roundrect"@.len() == 9 && "rectangle"@[0] == 'r' && "rectangle"@[1] == 'e'
        && "roundrect"@[1] == 'o' && "PssCircle"@[0] == 'P' && "roundrect"@[0] == 'r');
}

// Courtyards.

/// Whether a segment comes near a courtyard as a hit says: one of the courtyard's edges is
/// nearer than the clearance, or an end of the segment lies inside a polygon of it.
pub open spec fn is_courtyard_hit(
    hit: CourtyardHit,
    g: RoutingView,
    layer: Seq<char>,
    m: RouteMeasures,
    clearance: Scalar,
) -> bool {
    let (c, s) = (hit.courtyard as int, hit.segment as int);
    &&& c < g.courtyards.items.len() && s < m.segments@.len()
    &&& g.courtyards.items[c].layer == if layer == "B.Cu"@ {
        "B.CrtYd"@
    } else {
        "F.CrtYd"@
    }
    &&& exists|k: int|
        0 <= k < g.courtyards.items[c].polygons.len() && #[trigger] is_polygon_hit(
            hit,
            g.courtyards.items[c].polygons[k],
            m.segments@[s].courtyards@[c]@[k],
            clearance,
        )
}

/// Whether a hit is one of a polygon.
pub open spec fn is_polygon_hit(
    hit: CourtyardHit,
    polygon: Seq<Vector2>,
    m: PolygonMeasures,
    clearance: Scalar,
) -> bool {
    if hit.inside {
        polygon.len() >= 3 && m.end_inside && hit.gap.bits == 0
    } else {
        hit.gap.below(clearance) && m.edge_gaps@.contains(hit.gap)
    }
}

proof fn lemma_polygon_hit(
    hit: CourtyardHit,
    polygon: Seq<Vector2>,
    m: PolygonMeasures,
    c: int,
    s: int,
    clearance: Scalar,
)
    requires
        0 <= c <= usize::MAX,
        0 <= s <= usize::MAX,
    ensures
        polygon_hits(polygon, m, c, s, clearance).contains(hit) <==> hit.courtyard == c
            && hit.segment == s && is_polygon_hit(hit, polygon, m, clearance),
{
    let near = gather(m.edge_gaps@, edge_hit(c, s, clearance));
    let inside = CourtyardHit {
        courtyard: c as usize,
        segment: s as usize,
        gap: zero_spec(),
        inside: true,
    };
    let within = if polygon.len() >= 3 && m.end_inside {
        seq![inside]
    } else {
        Seq::empty()
    };
    lemma_joined_in(near, within, hit);
    lemma_one(inside, hit);
    lemma_gather_in(m.edge_gaps@, edge_hit(c, s, clearance), hit);
    assert forall|k: int| 0 <= k < m.edge_gaps@.len() implies (edge_hit(c, s, clearance)(
        #[trigger] m.edge_gaps@[k],
    ).contains(hit) <==> m.edge_gaps@[k].below(clearance) && hit.gap == m.edge_gaps@[k]
        && !hit.inside && hit.courtyard == c && hit.segment == s) by {
        lemma_one(
            CourtyardHit {
                courtyard: c as usize,
                segment: s as usize,
                gap: m.edge_gaps@[k],
                inside: false,
            },
            hit,
        );
    }
    if !hit.inside && m.edge_gaps@.contains(hit.gap) {
        let k = choose|k: int| 0 <= k < m.edge_gaps@.len() && m.edge_gaps@[k] == hit.gap;
        assert(m.edge_gaps@[k] == hit.gap);
    }
    assert(polygon_hits(polygon, m, c, s, clearance) =~= near + within);
}

/// A report names just the courtyards of the route's side that a segment comes nearer to than
/// the clearance or lies in with an end.
pub proof fn a_route_names_the_courtyards_it_comes_near(
    report: ClearanceReport,
    g: IpcRoutingGeometry,
    q: RouteQuery,
    m: RouteMeasures,
    clearance: Scalar,
    hit: CourtyardHit,
)
    requires
        is_report(report, g.deep_view(), q, m, clearance),
    ensures
        report.courtyard_intersections@.contains(hit) <==> is_courtyard_hit(
            hit,
            g.deep_view(),
            q.layer,
            m,
            clearance,
        ),
{
    let v = g.deep_view();
    lemma_fits_in_memory(g);
    let along = |s: int, segment: SegmentMeasures|
        gather_indexed(
            v.courtyards.items,
            courtyard_hits(q.layer, segment.courtyards@, s, clearance),
        );
    lemma_gather_indexed_in(m.segments@, along, hit);
    assert forall|s: int| 0 <= s < m.segments@.len() implies (along(
        s,
        #[trigger] m.segments@[s],
    ).contains(hit) <==> hit.segment == s && is_courtyard_hit(
        hit,
        v,
        q.layer,
        m,
        clearance,
    )) by {
        let own = m.segments@[s].courtyards@;
        let hits = courtyard_hits(q.layer, own, s, clearance);
        assert(s < m.segments.len());
        lemma_gather_indexed_in(v.courtyards.items, hits, hit);
        assert forall|c: int| 0 <= c < v.courtyards.items.len() implies (hits(
            c,
            #[trigger] v.courtyards.items[c],
        ).contains(hit) <==> hit.courtyard == c && hit.segment == s && is_courtyard_hit(
            hit,
            v,
            q.layer,
            m,
            clearance,
        )) by {
            let polygons = v.courtyards.items[c].polygons;
            let on = |k: int, polygon: Seq<Vector2>|
                polygon_hits(polygon, own[c]@[k], c, s, clearance);
            lemma_gather_indexed_in(polygons, on, hit);
            assert forall|k: int| 0 <= k < polygons.len() implies (on(
                k,
                #[trigger] polygons[k],
            ).contains(hit) <==> hit.courtyard == c && hit.segment == s && is_polygon_hit(
                hit,
                polygons[k],
                own[c]@[k],
                clearance,
            )) by {
                lemma_polygon_hit(hit, polygons[k], own[c]@[k], c, s, clearance);
            }
            if hits(c, v.courtyards.items[c]).contains(hit) {
                let k = choose|k: int|
                    0 <= k < polygons.len() && on(k, #[trigger] polygons[k]).contains(hit);
                assert(is_polygon_hit(
                    hit,
                    v.courtyards.items[c].polygons[k],
                    m.segments@[s].courtyards@[c]@[k],
                    clearance,
                ));
            }
            if hit.courtyard == c && hit.segment == s && is_courtyard_hit(
                hit,
                v,
                q.layer,
                m,
                clearance,
            ) {
                let k = choose|k: int|
                    0 <= k < polygons.len() && #[trigger] is_polygon_hit(
                        hit,
                        polygons[k],
                        own[c]@[k],
                        clearance,
                    );
                assert(on(k, polygons[k]).contains(hit));
            }
        }
        if hit.segment == s && is_courtyard_hit(hit, v, q.layer, m, clearance) {
            let c = hit.courtyard as int;
            assert(hits(c, v.courtyards.items[c]).contains(hit));
        }
    }
    if is_courtyard_hit(hit, v, q.layer, m, clearance) {
        let s = hit.segment as int;
        assert(along(s, m.segments@[s]).contains(hit));
    }
    assert(courtyards_along(v, q.layer, m, clearance) == gather_indexed(m.segments@, along));
}

// What cannot be judged.

/// Whether a name is that of a zone's net, which is empty where the zone has none.
pub open spec fn is_zone_net(zone: PolygonView, net: Seq<char>) -> bool {
    match zone.net_name {
        Some(name) => name == net,
        None => net.len() == 0,
    }
}

/// Whether each polygon of a zone has an outline, and there is one.
pub open spec fn is_outlined(polygons: Seq<Seq<Vector2>>) -> bool {
    &&& polygons.len() > 0
    &&& forall|k: int| 0 <= k < polygons.len() ==> (#[trigger] polygons[k]).len() >= 3
}

/// Whether a polygon reaches into a corridor: its box meets that of the route, and a point of
/// the route lies inside it or an edge of it lies within the margin. One without an outline is
/// taken to.
pub open spec fn reaches_in(
    polygon: Seq<Vector2>,
    m: ZoneMeasures,
    route_box: Region,
    margin: Scalar,
) -> bool {
    polygon.len() < 3 || boxes_meet(route_box, m.bounds) && ((exists|k: int|
        0 <= k < m.points_inside@.len() && #[trigger] m.points_inside@[k]) || (exists|k: int|
        0 <= k < m.edge_distances@.len() && (#[trigger] m.edge_distances@[k]).at_most(margin)))
}

/// Whether a zone reaches into a corridor with any of its polygons.
pub open spec fn zone_reaches_in(zone: PolygonView, m: CorridorMeasures, i: int) -> bool {
    exists|k: int|
        0 <= k < zone.polygons.len() && #[trigger] reaches_in(
            zone.polygons[k],
            m.zones@[i]@[k],
            m.route_box,
            m.margin,
        )
}

/// Whether a pad may lie within a box: it has no size, or its own box meets that one.
pub open spec fn is_within(pad: PadView, own_box: Region, envelope: Region) -> bool {
    pad.size is None || boxes_meet(own_box, envelope)
}

/// Whether something stands in the way of a route that cannot be judged: a class that is not
/// available; a pad of another net on the layer whose outline is not known, near a segment; a
/// track arc of another net on the layer whose box meets that of the route; or a zone of
/// another net on the layer that reaches into the corridor or has no outline.
pub open spec fn stands_in_the_way(
    found: Unsupported,
    g: RoutingView,
    layer: Seq<char>,
    net: Seq<char>,
    m: CorridorMeasures,
) -> bool {
    match found {
        Unsupported::Pad(i) => {
            let pad = g.pads.items[i as int];
            &&& i < g.pads.items.len()
            &&& !pad.geometry_supported
            &&& pad.net_name != net
            &&& takes_in(pad.layers, layer)
            &&& exists|s: int|
                0 <= s < m.segment_boxes@.len() && is_within(
                    pad,
                    m.pad_boxes@[i as int],
                    #[trigger] m.segment_boxes@[s],
                )
        },
        Unsupported::TrackArcsUnavailable => !g.track_arcs.available,
        Unsupported::TrackArc(i) => {
            &&& g.track_arcs.available
            &&& i < g.track_arcs.items.len()
            &&& g.track_arcs.items[i as int].layer == layer
            &&& g.track_arcs.items[i as int].net_name != net
            &&& boxes_meet(m.route_box, m.arc_boxes@[i as int])
        },
        Unsupported::ZonesUnavailable => !g.zones.available,
        Unsupported::Zone { index, relevant } => {
            let zone = g.zones.items[index as int];
            &&& g.zones.available
            &&& index < g.zones.items.len()
            &&& zone.layer == layer
            &&& !is_zone_net(zone, net)
            &&& relevant == zone_reaches_in(zone, m, index as int)
            &&& relevant || !is_outlined(zone.polygons)
        },
        Unsupported::EdgesUnavailable => !g.board_edges.available,
    }
}

proof fn lemma_near_route(pad: PadView, own_box: Region, boxes: Seq<Region>)
    ensures
        is_near_route(pad, own_box, boxes) <==> exists|s: int|
            0 <= s < boxes.len() && is_within(pad, own_box, #[trigger] boxes[s]),
{
    assert forall|b: Region| #[trigger] is_near(pad, own_box, b) == is_within(pad, own_box, b) by {}
    if is_near_route(pad, own_box, boxes) {
        let s = choose|s: int|
            0 <= s < boxes.len() && is_near(pad, own_box, #[trigger] boxes[s]);
        assert(is_within(pad, own_box, boxes[s]));
    }
    if exists|s: int| 0 <= s < boxes.len() && is_within(pad, own_box, #[trigger] boxes[s]) {
        let s = choose|s: int|
            0 <= s < boxes.len() && is_within(pad, own_box, #[trigger] boxes[s]);
        assert(is_near(pad, own_box, boxes[s]));
    }
}

proof fn lemma_zone_reaches(zone: PolygonView, m: CorridorMeasures, i: int)
    ensures
        is_relevant(zone.polygons, m.zones@[i]@, m.route_box, m.margin) <==> zone_reaches_in(
            zone,
            m,
            i,
        ),
        has_outline(zone.polygons) <==> is_outlined(zone.polygons),
{
    let polygons = zone.polygons;
    assert forall|k: int| 0 <= k < polygons.len() implies (reaches_corridor(
        (#[trigger] polygons[k]).len(),
        m.zones@[i]@[k],
        m.route_box,
        m.margin,
    ) <==> reaches_in(polygons[k], m.zones@[i]@[k], m.route_box, m.margin)) by {
        let inside = m.zones@[i]@[k].points_inside@;
        if inside.contains(true) {
            let p = choose|p: int| 0 <= p < inside.len() && inside[p] == true;
            assert(inside[p]);
        }
        if exists|p: int| 0 <= p < inside.len() && #[trigger] inside[p] {
            let p = choose|p: int| 0 <= p < inside.len() && #[trigger] inside[p];
            assert(inside[p] == true);
        }
    }
    if is_relevant(polygons, m.zones@[i]@, m.route_box, m.margin) {
        let k = choose|k: int|
            0 <= k < polygons.len() && reaches_corridor(
                (#[trigger] polygons[k]).len(),
                m.zones@[i]@[k],
                m.route_box,
                m.margin,
            );
        assert(reaches_in(polygons[k], m.zones@[i]@[k], m.route_box, m.margin));
    }
    if zone_reaches_in(zone, m, i) {
        let k = choose|k: int|
            0 <= k < polygons.len() && #[trigger] reaches_in(
                polygons[k],
                m.zones@[i]@[k],
                m.route_box,
                m.margin,
            );
        assert(reaches_corridor(polygons[k].len(), m.zones@[i]@[k], m.route_box, m.margin));
    }
}

proof fn lemma_in_the_way(
    g: RoutingView,
    layer: Seq<char>,
    net: Seq<char>,
    m: CorridorMeasures,
    found: Unsupported,
)
    requires
        fits_in_memory(g),
    ensures
        unsupported_along(g, layer, net, m).contains(found) <==> stands_in_the_way(
            found,
            g,
            layer,
            net,
            m,
        ),
{
    let pad_pick = unsupported_pad(layer, net, m);
    let arc_pick = unsupported_arc(layer, net, m);
    let zone_pick = unsupported_zone(layer, net, m);
    let pads = gather_indexed(g.pads.items, pad_pick);
    let arcs = if !g.track_arcs.available {
        seq![Unsupported::TrackArcsUnavailable]
    } else {
        gather_indexed(g.track_arcs.items, arc_pick)
    };
    let zones = if !g.zones.available {
        seq![Unsupported::ZonesUnavailable]
    } else {
        gather_indexed(g.zones.items, zone_pick)
    };
    let edges = if !g.board_edges.available {
        seq![Unsupported::EdgesUnavailable]
    } else {
        Seq::empty()
    };
    lemma_joined_in(pads + arcs + zones, edges, found);
    lemma_joined_in(pads + arcs, zones, found);
    lemma_joined_in(pads, arcs, found);
    lemma_one(Unsupported::TrackArcsUnavailable, found);
    lemma_one(Unsupported::ZonesUnavailable, found);
    lemma_one(Unsupported::EdgesUnavailable, found);
    lemma_gather_indexed_in(g.pads.items, pad_pick, found);
    lemma_gather_indexed_in(g.track_arcs.items, arc_pick, found);
    lemma_gather_indexed_in(g.zones.items, zone_pick, found);
    assert forall|i: int| 0 <= i < g.pads.items.len() implies (pad_pick(
        i,
        #[trigger] g.pads.items[i],
    ).contains(found) <==> found == Unsupported::Pad(i as usize) && stands_in_the_way(
        found,
        g,
        layer,
        net,
        m,
    )) by {
        lemma_one(Unsupported::Pad(i as usize), found);
        lemma_near_route(g.pads.items[i], m.pad_boxes@[i], m.segment_boxes@);
    }
    assert forall|i: int| 0 <= i < g.track_arcs.items.len() implies (arc_pick(
        i,
        #[trigger] g.track_arcs.items[i],
    ).contains(found) && g.track_arcs.available <==> found == Unsupported::TrackArc(i as usize)
        && stands_in_the_way(found, g, layer, net, m)) by {
        lemma_one(Unsupported::TrackArc(i as usize), found);
    }
    assert forall|i: int| 0 <= i < g.zones.items.len() implies (zone_pick(
        i,
        #[trigger] g.zones.items[i],
    ).contains(found) && g.zones.available <==> (found matches Unsupported::Zone { index, .. }
        && index == i) && stands_in_the_way(found, g, layer, net, m)) by {
        let zone = g.zones.items[i];
        lemma_zone_reaches(zone, m, i);
        let relevant = is_relevant(zone.polygons, m.zones@[i]@, m.route_box, m.margin);
        lemma_one(Unsupported::Zone { index: i as usize, relevant }, found);
        assert(net.len() == 0 <==> net =~= Seq::<char>::empty());
    }
    match found {
        Unsupported::Pad(i) => {
            if i < g.pads.items.len() {
                let at: int = i as int;
                assert(pad_pick(at, g.pads.items[at]).contains(found) <==> stands_in_the_way(
                    found,
                    g,
                    layer,
                    net,
                    m,
                ));
            }
        },
        Unsupported::TrackArc(i) => {
            if i < g.track_arcs.items.len() && g.track_arcs.available {
                let at: int = i as int;
                assert(arc_pick(at, g.track_arcs.items[at]).contains(found) <==> stands_in_the_way(
                    found,
                    g,
                    layer,
                    net,
                    m,
                ));
            }
        },
        Unsupported::Zone { index, .. } => {
            if index < g.zones.items.len() && g.zones.available {
                let at: int = index as int;
                assert(zone_pick(at, g.zones.items[at]).contains(found) <==> stands_in_the_way(
                    found,
                    g,
                    layer,
                    net,
                    m,
                ));
            }
        },
        _ => {},
    }
}

// The verdict.

/// Whether the copper that a route has to mind is known, and its layer is one of the board's.
pub open spec fn knows_copper(g: RoutingView, layer: Seq<char>) -> bool {
    &&& g.tracks.available && g.pads.available && g.vias.available && g.layers.available
    &&& exists|k: int| 0 <= k < g.layers.items.len() && (#[trigger] g.layers.items[k]).name == layer
}

/// A route is called safe just where no object that counts for one of its segments is nearer
/// than the clearance, nothing stands in its way that cannot be judged, and the copper and the
/// board's edge are known and its layer is one of the board's.
pub proof fn a_route_is_safe_where_nothing_speaks_against_it(
    check: RouteCheck,
    g: IpcRoutingGeometry,
    q: RouteQuery,
    clearance: Scalar,
    m: RouteMeasures,
    corridor: CorridorMeasures,
)
    requires
        is_route_check(check, g.deep_view(), q, clearance, m, corridor),
    ensures
        check.globally_safe <==> {
            &&& forall|found: Measured|
                #[trigger] counts_along(found, g.deep_view(), q, m) ==> !found.gap.below(clearance)
            &&& forall|found: Unsupported|
                !#[trigger] stands_in_the_way(found, g.deep_view(), q.layer, q.net, corridor)
            &&& knows_copper(g.deep_view(), q.layer)
            &&& g.board_edges.available
        },
        check.collision_free <==> forall|found: Measured|
            #[trigger] counts_along(found, g.deep_view(), q, m) ==> !found.gap.below(clearance),
        check.required_copper_supported <==> knows_copper(g.deep_view(), q.layer),
        check.board_edge_check_passed <==> g.board_edges.available && forall|found: Measured|
            #[trigger] counts_along(found, g.deep_view(), q, m) && found.object is BoardEdge
                ==> !found.gap.below(clearance),
        forall|found: Unsupported|
            check.encountered_unsupported_geometry@.contains(found)
                <==> #[trigger] stands_in_the_way(
                found,
                g.deep_view(),
                q.layer,
                q.net,
                corridor,
            ),
        match check.minimum_clearance {
            Some(least) => least == check.report.minimum && least.finite(),
            None => !check.report.minimum.finite(),
        },
        match check.board_edge_check {
            EdgeCheck::Supported { primitive_count } => g.board_edges.available && primitive_count
                == g.board_edges.items@.len(),
            EdgeCheck::Unsupported { reason } => !g.board_edges.available && (
            g.board_edges.reason matches Some(own) ==> reason@ == own@),
        },
{
    let v = g.deep_view();
    let conflicts = check.report.conflicts@;
    let encountered = check.encountered_unsupported_geometry@;
    lemma_fits_in_memory(g);
    assert forall|found: Measured| conflicts.contains(found) <==> #[trigger] counts_along(
        found,
        v,
        q,
        m,
    ) && found.gap.below(clearance) by {
        a_route_conflicts_with_what_is_too_near(check.report, g, q, m, clearance, found);
    }
    assert forall|found: Unsupported| encountered.contains(found) <==> #[trigger] stands_in_the_way(
        found,
        v,
        q.layer,
        q.net,
        corridor,
    ) by {
        lemma_in_the_way(v, q.layer, q.net, corridor, found);
    }
    if conflicts.len() > 0 {
        assert(conflicts.contains(conflicts[0]));
        assert(counts_along(conflicts[0], v, q, m));
    }
    if encountered.len() > 0 {
        assert(encountered.contains(encountered[0]));
        assert(stands_in_the_way(encountered[0], v, q.layer, q.net, corridor));
    }
    if hits_edge(conflicts) {
        let k = choose|k: int|
            0 <= k < conflicts.len() && (#[trigger] conflicts[k]).object is BoardEdge;
        assert(conflicts.contains(conflicts[k]));
        assert(counts_along(conflicts[k], v, q, m));
    } else {
        assert forall|found: Measured|
            #[trigger] counts_along(found, v, q, m)
                && found.object is BoardEdge implies !found.gap.below(clearance) by {
            if found.gap.below(clearance) {
                let k = choose|k: int| 0 <= k < conflicts.len() && conflicts[k] == found;
                assert(conflicts[k].object is BoardEdge);
            }
        }
    }
    assert(v.board_edges.items.len() == g.board_edges.items@.len());
}

/// Whether a reason is the one that was given, or else the usual one.
pub open spec fn is_reason(told: Seq<char>, given: Option<String>, usual: Seq<char>) -> bool {
    match given {
        Some(own) => told == own@,
        None => told == usual,
    }
}

/// Why something cannot be judged is told by what KiCad said of it, where it said anything, and
/// else by what is usually the matter with a thing of its kind.
pub proof fn what_kicad_said_is_told(found: Unsupported, g: IpcRoutingGeometry)
    ensures
        match found {
            Unsupported::Pad(i) => i < g.pads.items@.len() ==> is_reason(
                unsupported_reason(found, g.deep_view()),
                g.pads.items@[i as int].geometry_reason,
                "unsupported pad geometry"@,
            ),
            Unsupported::TrackArcsUnavailable => is_reason(
                unsupported_reason(found, g.deep_view()),
                g.track_arcs.reason,
                "track arc geometry unavailable"@,
            ),
            Unsupported::TrackArc(_) => unsupported_reason(found, g.deep_view())
                == "track arc intersects candidate clearance envelope; exact arc clearance is unavailable"@,
            Unsupported::ZonesUnavailable => is_reason(
                unsupported_reason(found, g.deep_view()),
                g.zones.reason,
                "copper-zone geometry unavailable"@,
            ),
            Unsupported::Zone { relevant, .. } => if relevant {
                unsupported_reason(found, g.deep_view())
                    == "foreign zone fill/holes are unavailable in the candidate corridor"@
            } else {
                unsupported_reason(found, g.deep_view()) == "foreign zone outline is unavailable"@
            },
            Unsupported::EdgesUnavailable => is_reason(
                unsupported_reason(found, g.deep_view()),
                g.board_edges.reason,
                "Edge.Cuts geometry unavailable"@,
            ),
        },
{
}

/// The check of the board's edge tells how many pieces the edge has, or why it is not known.
pub proof fn the_edge_check_tells_what_is_known(check: EdgeCheck, g: IpcRoutingGeometry)
    requires
        is_edge_check(check, g.deep_view()),
    ensures
        match check {
            EdgeCheck::Supported { primitive_count } => g.board_edges.available && primitive_count
                == g.board_edges.items@.len(),
            EdgeCheck::Unsupported { reason } => !g.board_edges.available && is_reason(
                reason@,
                g.board_edges.reason,
                "Edge.Cuts geometry unavailable"@,
            ),
        },
{
    assert(g.deep_view().board_edges.items.len() == g.board_edges.items@.len());
}

} // verus!
