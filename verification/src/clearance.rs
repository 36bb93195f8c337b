//! How near a proposed route comes to what is on the board.
//!
//! Distances between shapes are arithmetic on real numbers and are measured by the caller.
//! This module decides which objects count for a route, which of them it comes too near, and
//! what the least gap is.

use crate::board::{
    IpcBoardEdgeGeometry, IpcPadGeometry, IpcPolygonGeometry, IpcRoutingGeometry, IpcTrack,
    IpcViaGeometry, PadView, PolygonView, RoutingView, TrackView, ViaView,
};
use crate::gather::{
    gather, gather_indexed, lemma_gather_contains, lemma_gather_indexed_carries,
    lemma_gather_indexed_contains, lemma_gather_indexed_source, lemma_gather_indexed_step,
    lemma_gather_source, lemma_gather_step,
};
use crate::json::{AllowedEndpointPad, AllowedPadView, Region};
use crate::messages::Vector2;
use crate::scalar::{infinity, infinity_spec, zero, zero_spec, Scalar};
use crate::text;
use vstd::prelude::*;
use vstd::string::*;

verus! {

// Boxes.

/// Whether two boxes have a point in common.
pub open spec fn overlap(a: Region, b: Region) -> bool {
    &&& a.x_min.at_most(b.x_max)
    &&& b.x_min.at_most(a.x_max)
    &&& a.y_min.at_most(b.y_max)
    &&& b.y_min.at_most(a.y_max)
}

pub fn bbox_intersects(a: Region, b: Region) -> (r: bool)
    ensures
        r == overlap(a, b),
{
    a.x_min.le(b.x_max) && b.x_min.le(a.x_max) && a.y_min.le(b.y_max) && b.y_min.le(a.y_max)
}

/// Overlapping is mutual.
pub proof fn overlap_is_mutual(a: Region, b: Region)
    ensures
        overlap(a, b) == overlap(b, a),
{
}

// Pads.

/// The outline of a pad.
#[derive(Clone, Copy, Debug, PartialEq, Eq, Structural)]
pub enum Outline {
    Circle,
    Rectangle,
    Oval,
    /// The ratio of the corners' radius to the shorter side.
    Roundrect { ratio: Scalar },
}

/// The outline of a pad, where it is known.
pub open spec fn outline_of(pad: PadView) -> Option<Outline> {
    if !pad.geometry_supported || pad.size is None {
        None
    } else {
        match pad.shape {
            None => None,
            Some(shape) => if shape == "PssCircle"@ || shape == "circle"@ {
                Some(Outline::Circle)
            } else if shape == "PssRectangle"@ || shape == "rectangle"@ {
                Some(Outline::Rectangle)
            } else if shape == "PssOval"@ || shape == "oval"@ {
                Some(Outline::Oval)
            } else if shape == "PssRoundrect"@ || shape == "roundrect"@ {
                Some(
                    Outline::Roundrect {
                        ratio: match pad.corner_rounding_ratio {
                            Some(ratio) => ratio,
                            None => zero_spec(),
                        },
                    },
                )
            } else {
                None
            },
        }
    }
}

/// The outline of a pad, where it is known.
pub fn pad_outline(pad: &IpcPadGeometry) -> (r: Option<Outline>)
    ensures
        r == outline_of(pad.deep_view()),
{
    if !pad.geometry_supported {
        return None;
    }
    if pad.size.is_none() {
        return None;
    }
    let shape = match &pad.shape {
        None => {
            return None;
        },
        Some(shape) => shape.as_str(),
    };
    if text::same(shape, "PssCircle") || text::same(shape, "circle") {
        Some(Outline::Circle)
    } else if text::same(shape, "PssRectangle") || text::same(shape, "rectangle") {
        Some(Outline::Rectangle)
    } else if text::same(shape, "PssOval") || text::same(shape, "oval") {
        Some(Outline::Oval)
    } else if text::same(shape, "PssRoundrect") || text::same(shape, "roundrect") {
        Some(
            Outline::Roundrect {
                ratio: match pad.corner_rounding_ratio {
                    Some(ratio) => ratio,
                    None => zero(),
                },
            },
        )
    } else {
        None
    }
}

/// Whether layers take in one; no layers stand for all.
pub open spec fn lies_on(layers: Seq<Seq<char>>, layer: Seq<char>) -> bool {
    layers.len() == 0 || layers.contains(layer)
}

pub fn is_on(layers: &Vec<String>, layer: &str) -> (r: bool)
    ensures
        r == lies_on(layers.deep_view(), layer@),
{
    layers.len() == 0 || text::list_holds(layers, layer)
}

/// Whether a pad is near enough to be looked at. One without a size always is.
pub open spec fn is_near(pad: PadView, own_box: Region, envelope: Region) -> bool {
    pad.size is None || overlap(own_box, envelope)
}

/// Whether the box of a pad meets the search envelope of a segment. A pad without a size has
/// no box and is taken to meet every envelope.
pub fn pad_intersects_segment_search_envelope(
    pad: &IpcPadGeometry,
    own_box: Region,
    envelope: Region,
) -> (r: bool)
    ensures
        r == is_near(pad.deep_view(), own_box, envelope),
{
    pad.size.is_none() || bbox_intersects(own_box, envelope)
}

/// Whether an end at this distance lies in a pad.
pub open spec fn lies_in(pad: PadView, distance: Scalar) -> bool {
    outline_of(pad) is Some && distance.magnitude() == 0
}

/// Whether an end at this distance lies in a pad.
pub fn endpoint_is_inside_pad(pad: &IpcPadGeometry, distance: Scalar) -> (r: bool)
    ensures
        r == lies_in(pad.deep_view(), distance),
{
    pad_outline(pad).is_some() && (distance.bits == 0 || distance.bits == crate::scalar::SIGN)
}

/// Whether a pad is named among those that may be touched.
pub open spec fn is_named_pad(pad: PadView, allowed: Seq<AllowedPadView>) -> bool {
    exists|i: int|
        0 <= i < allowed.len() && (#[trigger] allowed[i]).reference == pad.reference
            && allowed[i].pad == pad.number
}

/// Where a segment stands in its route.
#[derive(Clone, Copy, Debug, PartialEq, Eq, Structural)]
pub struct SegmentPlace {
    pub first: bool,
    pub last: bool,
}

/// Whether a pad may be touched by a segment: it is named, and the route starts in it with
/// this segment or ends in it with this segment.
pub open spec fn is_exempt(
    pad: PadView,
    allowed: Seq<AllowedPadView>,
    place: SegmentPlace,
    start_distance: Scalar,
    end_distance: Scalar,
) -> bool {
    is_named_pad(pad, allowed) && (place.first && lies_in(pad, start_distance) || place.last
        && lies_in(pad, end_distance))
}

/// Whether a pad may be touched by a segment.
pub fn pad_is_allowed_at_segment_endpoint(
    pad: &IpcPadGeometry,
    allowed: &Vec<AllowedEndpointPad>,
    place: SegmentPlace,
    start_distance: Scalar,
    end_distance: Scalar,
) -> (r: bool)
    ensures
        r == is_exempt(
            pad.deep_view(),
            allowed.deep_view(),
            place,
            start_distance,
            end_distance,
        ),
{
    let ghost all = allowed.deep_view();
    let ghost view = pad.deep_view();
    let mut named = false;
    let mut i: usize = 0;
    while i < allowed.len()
        invariant
            i <= allowed@.len(),
            all == allowed.deep_view(),
            view == pad.deep_view(),
            named == (exists|j: int|
                0 <= j < i && (#[trigger] all[j]).reference == view.reference && all[j].pad
                    == view.number),
        decreases allowed@.len() - i,
    {
        assert(all[i as int] == allowed@[i as int].deep_view());
        if text::same(allowed[i].reference.as_str(), pad.reference.as_str()) && text::same(
            allowed[i].pad.as_str(),
            pad.number.as_str(),
        ) {
            named = true;
        }
        i += 1;
    }
    named && (place.first && endpoint_is_inside_pad(pad, start_distance) || place.last
        && endpoint_is_inside_pad(pad, end_distance))
}

// What the caller measured.

/// A courtyard polygon, seen from a segment: the gap to each of its edges, and whether an end
/// of the segment lies inside.
#[derive(Debug)]
pub struct PolygonMeasures {
    pub edge_gaps: Vec<Scalar>,
    pub end_inside: bool,
}

/// A segment: the box within which pads are looked at, and the gap to each object.
#[derive(Debug)]
pub struct SegmentMeasures {
    pub envelope: Region,
    pub tracks: Vec<Scalar>,
    pub pads: Vec<Scalar>,
    pub vias: Vec<Scalar>,
    pub edges: Vec<Scalar>,
    pub courtyards: Vec<Vec<PolygonMeasures>>,
}

/// A route: its segments, the boxes of the pads, and how far its two ends are from each pad.
#[derive(Debug)]
pub struct RouteMeasures {
    pub segments: Vec<SegmentMeasures>,
    pub pad_boxes: Vec<Region>,
    pub start_distances: Vec<Scalar>,
    pub end_distances: Vec<Scalar>,
}

/// Whether the measures of a segment are those of a board.
pub open spec fn segment_fits(m: SegmentMeasures, g: RoutingView) -> bool {
    &&& m.tracks@.len() == g.tracks.items.len()
    &&& m.pads@.len() == g.pads.items.len()
    &&& m.vias@.len() == g.vias.items.len()
    &&& m.edges@.len() == g.board_edges.items.len()
    &&& m.courtyards@.len() == g.courtyards.items.len()
    &&& forall|i: int|
        0 <= i < m.courtyards@.len() ==> (#[trigger] m.courtyards@[i])@.len()
            == g.courtyards.items[i].polygons.len()
    &&& forall|i: int, k: int|
        0 <= i < m.courtyards@.len() && 0 <= k < m.courtyards@[i]@.len()
            ==> (#[trigger] m.courtyards@[i]@[k]).edge_gaps@.len() == edge_count(
            g.courtyards.items[i].polygons[k].len(),
        )
}

/// The edges between successive corners.
pub open spec fn edge_count(corners: nat) -> nat {
    if corners == 0 {
        0
    } else {
        (corners - 1) as nat
    }
}

/// Whether the measures of a route are those of a board.
pub open spec fn route_fits(m: RouteMeasures, g: RoutingView) -> bool {
    &&& m.pad_boxes@.len() == g.pads.items.len()
    &&& m.start_distances@.len() == g.pads.items.len()
    &&& m.end_distances@.len() == g.pads.items.len()
    &&& forall|s: int| 0 <= s < m.segments@.len() ==> segment_fits(#[trigger] m.segments@[s], g)
}

// Which objects count.

/// An object that a route has to keep clear of, by its place in its list.
#[derive(Clone, Copy, Debug, PartialEq, Eq, Structural)]
pub enum Obstacle {
    Track(usize),
    Pad(usize),
    Via(usize),
    BoardEdge(usize),
}

/// An object and the gap to it.
#[derive(Clone, Copy, Debug, PartialEq, Eq, Structural)]
pub struct Measured {
    pub object: Obstacle,
    pub gap: Scalar,
}

/// What is asked about a route.
pub struct RouteQuery {
    pub layer: Seq<char>,
    pub net: Seq<char>,
    pub allowed: Seq<AllowedPadView>,
}

/// A track of another net on the layer.
pub open spec fn measured_track(q: RouteQuery, gaps: Seq<Scalar>) -> spec_fn(
    int,
    TrackView,
) -> Seq<Measured> {
    |i: int, track: TrackView|
        if track.layer == q.layer && track.net_name != q.net {
            seq![Measured { object: Obstacle::Track(i as usize), gap: gaps[i] }]
        } else {
            Seq::empty()
        }
}

/// A pad of another net on the layer that is near, is not exempt and whose outline is known.
pub open spec fn measured_pad(
    q: RouteQuery,
    m: RouteMeasures,
    s: int,
) -> spec_fn(int, PadView) -> Seq<Measured> {
    |i: int, pad: PadView|
        if pad.net_name != q.net && lies_on(pad.layers, q.layer) && is_near(
            pad,
            m.pad_boxes@[i],
            m.segments@[s].envelope,
        ) && !is_exempt(
            pad,
            q.allowed,
            place_of(m, s),
            m.start_distances@[i],
            m.end_distances@[i],
        ) && outline_of(pad) is Some {
            seq![Measured { object: Obstacle::Pad(i as usize), gap: m.segments@[s].pads@[i] }]
        } else {
            Seq::empty()
        }
}

/// A via of another net, on whichever layers.
pub open spec fn measured_via(q: RouteQuery, gaps: Seq<Scalar>) -> spec_fn(int, ViaView) -> Seq<
    Measured,
> {
    |i: int, via: ViaView|
        if via.net_name != q.net {
            seq![Measured { object: Obstacle::Via(i as usize), gap: gaps[i] }]
        } else {
            Seq::empty()
        }
}

/// Every piece of the board's edge.
pub open spec fn measured_edge(gaps: Seq<Scalar>) -> spec_fn(int, IpcBoardEdgeGeometry) -> Seq<
    Measured,
> {
    |i: int, edge: IpcBoardEdgeGeometry|
        seq![Measured { object: Obstacle::BoardEdge(i as usize), gap: gaps[i] }]
}

/// Where a segment stands in its route.
pub open spec fn place_of(m: RouteMeasures, s: int) -> SegmentPlace {
    SegmentPlace { first: s == 0, last: s + 1 == m.segments@.len() }
}

/// The objects that count for a segment, with their gaps.
pub open spec fn measured_on(
    g: RoutingView,
    q: RouteQuery,
    m: RouteMeasures,
    s: int,
) -> Seq<Measured> {
    gather_indexed(g.tracks.items, measured_track(q, m.segments@[s].tracks@)) + gather_indexed(
        g.pads.items,
        measured_pad(q, m, s),
    ) + gather_indexed(g.vias.items, measured_via(q, m.segments@[s].vias@)) + gather_indexed(
        g.board_edges.items,
        measured_edge(m.segments@[s].edges@),
    )
}

/// The objects that count for a route, segment by segment.
pub open spec fn measured_along(g: RoutingView, q: RouteQuery, m: RouteMeasures) -> Seq<Measured> {
    gather_indexed(
        m.segments@,
        |s: int, segment: SegmentMeasures| measured_on(g, q, m, s),
    )
}

/// Those that are nearer than they may be.
pub open spec fn colliding(measured: Seq<Measured>, clearance: Scalar) -> Seq<Measured> {
    gather(
        measured,
        |found: Measured|
            if found.gap.below(clearance) {
                seq![found]
            } else {
                Seq::empty()
            },
    )
}

/// The least gap; infinity where there is none.
pub open spec fn least(measured: Seq<Measured>) -> Scalar
    decreases measured.len(),
{
    if measured.len() == 0 {
        infinity_spec()
    } else {
        least(measured.drop_last()).lesser(measured.last().gap)
    }
}

// Courtyards.

/// A courtyard that a segment comes near to. It is no collision.
#[derive(Clone, Copy, Debug, PartialEq, Eq, Structural)]
pub struct CourtyardHit {
    pub courtyard: usize,
    pub segment: usize,
    pub gap: Scalar,
    /// Whether an end of the segment lies inside; the gap is then zero.
    pub inside: bool,
}

/// The courtyard layer of a copper layer's side.
pub open spec fn courtyard_layer(layer: Seq<char>) -> Seq<char> {
    if layer == "B.Cu"@ {
        "B.CrtYd"@
    } else {
        "F.CrtYd"@
    }
}

pub open spec fn edge_hit(c: int, s: int, clearance: Scalar) -> spec_fn(Scalar) -> Seq<
    CourtyardHit,
> {
    |gap: Scalar|
        if gap.below(clearance) {
            seq![CourtyardHit { courtyard: c as usize, segment: s as usize, gap, inside: false }]
        } else {
            Seq::empty()
        }
}

pub open spec fn polygon_hits(
    polygon: Seq<Vector2>,
    m: PolygonMeasures,
    c: int,
    s: int,
    clearance: Scalar,
) -> Seq<CourtyardHit> {
    gather(m.edge_gaps@, edge_hit(c, s, clearance)) + if polygon.len() >= 3 && m.end_inside {
        seq![
            CourtyardHit {
                courtyard: c as usize,
                segment: s as usize,
                gap: zero_spec(),
                inside: true,
            },
        ]
    } else {
        Seq::empty()
    }
}

pub open spec fn courtyard_hits(
    layer: Seq<char>,
    m: Seq<Vec<PolygonMeasures>>,
    s: int,
    clearance: Scalar,
) -> spec_fn(int, PolygonView) -> Seq<CourtyardHit> {
    |c: int, courtyard: PolygonView|
        if courtyard.layer == courtyard_layer(layer) {
            gather_indexed(
                courtyard.polygons,
                |k: int, polygon: Seq<Vector2>| polygon_hits(polygon, m[c]@[k], c, s, clearance),
            )
        } else {
            Seq::empty()
        }
}

/// The courtyards that a route comes near to, segment by segment.
pub open spec fn courtyards_along(
    g: RoutingView,
    layer: Seq<char>,
    m: RouteMeasures,
    clearance: Scalar,
) -> Seq<CourtyardHit> {
    gather_indexed(
        m.segments@,
        |s: int, segment: SegmentMeasures|
            gather_indexed(
                g.courtyards.items,
                courtyard_hits(layer, segment.courtyards@, s, clearance),
            ),
    )
}

// The report.

/// What a route comes too near to, the courtyards it comes near to, and its least gap.
#[derive(Debug)]
pub struct ClearanceReport {
    pub conflicts: Vec<Measured>,
    pub courtyard_intersections: Vec<CourtyardHit>,
    pub minimum: Scalar,
}

/// Whether a report is the one for a route.
pub open spec fn is_report(
    report: ClearanceReport,
    g: RoutingView,
    q: RouteQuery,
    m: RouteMeasures,
    clearance: Scalar,
) -> bool {
    let measured = measured_along(g, q, m);
    &&& report.conflicts@ == colliding(measured, clearance)
    &&& report.minimum == least(measured)
    &&& report.courtyard_intersections@ == courtyards_along(g, q.layer, m, clearance)
}

fn measure_tracks(tracks: &Vec<IpcTrack>, layer: &str, net: &str, gaps: &Vec<Scalar>) -> (r: Vec<
    Measured,
>)
    requires
        gaps@.len() == tracks@.len(),
    ensures
        forall|q: RouteQuery|
            q.layer == layer@ && q.net == net@ ==> r@ == #[trigger] gather_indexed(
                tracks.deep_view(),
                measured_track(q, gaps@),
            ),
{
    let ghost all = tracks.deep_view();
    let ghost q = RouteQuery { layer: layer@, net: net@, allowed: Seq::empty() };
    let ghost pick = measured_track(q, gaps@);
    let mut out: Vec<Measured> = Vec::new();
    let mut i: usize = 0;
    while i < tracks.len()
        invariant
            i <= tracks@.len(),
            gaps@.len() == tracks@.len(),
            all == tracks.deep_view(),
            pick == measured_track(q, gaps@),
            q.layer == layer@,
            q.net == net@,
            out@ == gather_indexed(all.take(i as int), pick),
        decreases tracks@.len() - i,
    {
        let track = &tracks[i];
        proof {
            assert(all[i as int] == track.deep_view());
            lemma_gather_indexed_step(all, pick, i as int);
        }
        if text::same(track.layer.as_str(), layer) && !text::same(track.net_name.as_str(), net) {
            out.push(Measured { object: Obstacle::Track(i), gap: gaps[i] });
        }
        i += 1;
    }
    assert(all.take(all.len() as int) == all);
    assert forall|other: RouteQuery| other.layer == layer@ && other.net == net@ implies out@
        == #[trigger] gather_indexed(all, measured_track(other, gaps@)) by {
        assert(measured_track(other, gaps@) =~= pick);
    }
    out
}

fn measure_vias(vias: &Vec<IpcViaGeometry>, net: &str, gaps: &Vec<Scalar>) -> (r: Vec<Measured>)
    requires
        gaps@.len() == vias@.len(),
    ensures
        forall|q: RouteQuery|
            q.net == net@ ==> r@ == #[trigger] gather_indexed(
                vias.deep_view(),
                measured_via(q, gaps@),
            ),
{
    let ghost all = vias.deep_view();
    let ghost q = RouteQuery { layer: Seq::empty(), net: net@, allowed: Seq::empty() };
    let ghost pick = measured_via(q, gaps@);
    let mut out: Vec<Measured> = Vec::new();
    let mut i: usize = 0;
    while i < vias.len()
        invariant
            i <= vias@.len(),
            gaps@.len() == vias@.len(),
            all == vias.deep_view(),
            pick == measured_via(q, gaps@),
            q.net == net@,
            out@ == gather_indexed(all.take(i as int), pick),
        decreases vias@.len() - i,
    {
        let via = &vias[i];
        proof {
            assert(all[i as int] == via.deep_view());
            lemma_gather_indexed_step(all, pick, i as int);
        }
        if !text::same(via.net_name.as_str(), net) {
            out.push(Measured { object: Obstacle::Via(i), gap: gaps[i] });
        }
        i += 1;
    }
    assert(all.take(all.len() as int) == all);
    assert forall|other: RouteQuery| other.net == net@ implies out@ == #[trigger] gather_indexed(
        all,
        measured_via(other, gaps@),
    ) by {
        assert(measured_via(other, gaps@) =~= pick);
    }
    out
}

fn measure_edges(edges: &Vec<IpcBoardEdgeGeometry>, gaps: &Vec<Scalar>) -> (r: Vec<Measured>)
    requires
        gaps@.len() == edges@.len(),
    ensures
        r@ == gather_indexed(edges.deep_view(), measured_edge(gaps@)),
{
    let ghost all = edges.deep_view();
    let ghost pick = measured_edge(gaps@);
    let mut out: Vec<Measured> = Vec::new();
    let mut i: usize = 0;
    while i < edges.len()
        invariant
            i <= edges@.len(),
            gaps@.len() == edges@.len(),
            all == edges.deep_view(),
            pick == measured_edge(gaps@),
            out@ == gather_indexed(all.take(i as int), pick),
        decreases edges@.len() - i,
    {
        proof {
            lemma_gather_indexed_step(all, pick, i as int);
        }
        out.push(Measured { object: Obstacle::BoardEdge(i), gap: gaps[i] });
        i += 1;
    }
    assert(all.take(all.len() as int) == all);
    out
}

fn measure_pads(
    pads: &Vec<IpcPadGeometry>,
    layer: &str,
    net: &str,
    allowed: &Vec<AllowedEndpointPad>,
    m: &RouteMeasures,
    s: usize,
) -> (r: Vec<Measured>)
    requires
        s < m.segments@.len(),
        m.pad_boxes@.len() == pads@.len(),
        m.start_distances@.len() == pads@.len(),
        m.end_distances@.len() == pads@.len(),
        m.segments@[s as int].pads@.len() == pads@.len(),
    ensures
        r@ == gather_indexed(
            pads.deep_view(),
            measured_pad(
                (RouteQuery { layer: layer@, net: net@, allowed: allowed.deep_view() }),
                *m,
                s as int,
            ),
        ),
{
    let ghost all = pads.deep_view();
    let ghost q = RouteQuery { layer: layer@, net: net@, allowed: allowed.deep_view() };
    let ghost pick = measured_pad(q, *m, s as int);
    let segment = &m.segments[s];
    let count: usize = m.segments.len();
    let place = SegmentPlace { first: s == 0, last: s == count - 1 };
    let mut out: Vec<Measured> = Vec::new();
    let mut i: usize = 0;
    while i < pads.len()
        invariant
            i <= pads@.len(),
            s < m.segments@.len(),
            m.pad_boxes@.len() == pads@.len(),
            m.start_distances@.len() == pads@.len(),
            m.end_distances@.len() == pads@.len(),
            *segment == m.segments@[s as int],
            segment.pads@.len() == pads@.len(),
            place == place_of(*m, s as int),
            all == pads.deep_view(),
            q == (RouteQuery { layer: layer@, net: net@, allowed: allowed.deep_view() }),
            pick == measured_pad(q, *m, s as int),
            out@ == gather_indexed(all.take(i as int), pick),
        decreases pads@.len() - i,
    {
        let pad = &pads[i];
        proof {
            assert(all[i as int] == pad.deep_view());
            lemma_gather_indexed_step(all, pick, i as int);
        }
        if !text::same(pad.net_name.as_str(), net) && is_on(&pad.layers, layer)
            && pad_intersects_segment_search_envelope(pad, m.pad_boxes[i], segment.envelope)
            && !pad_is_allowed_at_segment_endpoint(
            pad,
            allowed,
            place,
            m.start_distances[i],
            m.end_distances[i],
        ) && pad_outline(pad).is_some() {
            out.push(Measured { object: Obstacle::Pad(i), gap: segment.pads[i] });
        }
        i += 1;
    }
    assert(all.take(all.len() as int) == all);
    out
}

fn list_polygon_hits(
    corners: usize,
    m: &PolygonMeasures,
    c: usize,
    s: usize,
    clearance: Scalar,
) -> (r: Vec<CourtyardHit>)
    ensures
        forall|polygon: Seq<Vector2>|
            polygon.len() == corners ==> r@ == #[trigger] polygon_hits(
                polygon,
                *m,
                c as int,
                s as int,
                clearance,
            ),
{
    let ghost all = m.edge_gaps@;
    let ghost pick = edge_hit(c as int, s as int, clearance);
    let mut out: Vec<CourtyardHit> = Vec::new();
    let mut i: usize = 0;
    while i < m.edge_gaps.len()
        invariant
            i <= m.edge_gaps@.len(),
            all == m.edge_gaps@,
            pick == edge_hit(c as int, s as int, clearance),
            out@ == gather(all.take(i as int), pick),
        decreases m.edge_gaps@.len() - i,
    {
        proof {
            lemma_gather_step(all, pick, i as int);
        }
        let gap = m.edge_gaps[i];
        if gap.lt(clearance) {
            out.push(CourtyardHit { courtyard: c, segment: s, gap, inside: false });
        }
        i += 1;
    }
    assert(all.take(all.len() as int) == all);
    if corners >= 3 && m.end_inside {
        out.push(CourtyardHit { courtyard: c, segment: s, gap: zero(), inside: true });
    }
    out
}

fn list_courtyard_hits(
    courtyards: &Vec<IpcPolygonGeometry>,
    layer: &str,
    m: &Vec<Vec<PolygonMeasures>>,
    s: usize,
    clearance: Scalar,
) -> (r: Vec<CourtyardHit>)
    requires
        m@.len() == courtyards@.len(),
        forall|i: int|
            0 <= i < m@.len() ==> (#[trigger] m@[i])@.len() == courtyards@[i].polygons@.len(),
    ensures
        r@ == gather_indexed(
            courtyards.deep_view(),
            courtyard_hits(layer@, m@, s as int, clearance),
        ),
{
    let ghost all = courtyards.deep_view();
    let ghost pick = courtyard_hits(layer@, m@, s as int, clearance);
    let wanted = if text::same(layer, "B.Cu") {
        "B.CrtYd"
    } else {
        "F.CrtYd"
    };
    let mut out: Vec<CourtyardHit> = Vec::new();
    let mut i: usize = 0;
    while i < courtyards.len()
        invariant
            i <= courtyards@.len(),
            m@.len() == courtyards@.len(),
            forall|j: int|
                0 <= j < m@.len() ==> (#[trigger] m@[j])@.len() == courtyards@[j].polygons@.len(),
            all == courtyards.deep_view(),
            pick == courtyard_hits(layer@, m@, s as int, clearance),
            wanted@ == courtyard_layer(layer@),
            out@ == gather_indexed(all.take(i as int), pick),
        decreases courtyards@.len() - i,
    {
        let courtyard = &courtyards[i];
        proof {
            assert(all[i as int] == courtyard.deep_view());
            lemma_gather_indexed_step(all, pick, i as int);
        }
        let ghost before = out@;
        if text::same(courtyard.layer.as_str(), wanted) {
            let ghost polygons = courtyard.polygons.deep_view();
            let ghost inner = |k: int, polygon: Seq<Vector2>|
                polygon_hits(polygon, m@[i as int]@[k], i as int, s as int, clearance);
            let mut k: usize = 0;
            assert(m@[i as int]@.len() == courtyards@[i as int].polygons@.len());
            while k < courtyard.polygons.len()
                invariant
                    i < courtyards@.len(),
                    *courtyard == courtyards@[i as int],
                    i < m@.len(),
                    m@[i as int]@.len() == courtyard.polygons@.len(),
                    k <= courtyard.polygons@.len(),
                    polygons == courtyard.polygons.deep_view(),
                    inner == (|k: int, polygon: Seq<Vector2>|
                        polygon_hits(polygon, m@[i as int]@[k], i as int, s as int, clearance)),
                    out@ == before + gather_indexed(polygons.take(k as int), inner),
                decreases courtyard.polygons@.len() - k,
            {
                let corners: usize = courtyard.polygons[k].len();
                proof {
                    lemma_gather_indexed_step(polygons, inner, k as int);
                    assert(polygons[k as int].len() == corners);
                }
                let ghost sofar = out@;
                let mut hits = list_polygon_hits(corners, &m[i][k], i, s, clearance);
                let ghost found = hits@;
                out.append(&mut hits);
                proof {
                    assert(found == polygon_hits(
                        polygons[k as int],
                        m@[i as int]@[k as int],
                        i as int,
                        s as int,
                        clearance,
                    ));
                    assert(out@ == sofar + found);
                    assert(out@ == before + (gather_indexed(polygons.take(k as int), inner)
                        + found));
                }
                k += 1;
            }
            assert(polygons.take(polygons.len() as int) == polygons);
        } else {
            assert(before + Seq::<CourtyardHit>::empty() == before);
        }
        i += 1;
    }
    assert(all.take(all.len() as int) == all);
    out
}

fn keep_colliding(measured: &Vec<Measured>, clearance: Scalar) -> (r: (Vec<Measured>, Scalar))
    ensures
        r.0@ == colliding(measured@, clearance),
        r.1 == least(measured@),
{
    let ghost all = measured@;
    let ghost pick = |found: Measured|
        if found.gap.below(clearance) {
            seq![found]
        } else {
            Seq::empty()
        };
    let mut kept: Vec<Measured> = Vec::new();
    let mut minimum = infinity();
    let mut i: usize = 0;
    while i < measured.len()
        invariant
            i <= measured@.len(),
            all == measured@,
            pick == (|found: Measured|
                if found.gap.below(clearance) {
                    seq![found]
                } else {
                    Seq::empty()
                }),
            kept@ == gather(all.take(i as int), pick),
            minimum == least(all.take(i as int)),
        decreases measured@.len() - i,
    {
        proof {
            lemma_gather_step(all, pick, i as int);
            assert(all.take(i + 1).drop_last() == all.take(i as int));
        }
        let found = measured[i];
        minimum = minimum.min(found.gap);
        if found.gap.lt(clearance) {
            kept.push(found);
        }
        i += 1;
    }
    assert(all.take(all.len() as int) == all);
    (kept, minimum)
}

/// What a route comes too near to.
pub fn calculate_clearance(
    g: &IpcRoutingGeometry,
    layer: &str,
    net: &str,
    clearance: Scalar,
    allowed_endpoint_pads: &Vec<AllowedEndpointPad>,
    measures: &RouteMeasures,
) -> (r: ClearanceReport)
    requires
        route_fits(*measures, g.deep_view()),
    ensures
        is_report(
            r,
            g.deep_view(),
            (RouteQuery {
                layer: layer@,
                net: net@,
                allowed: allowed_endpoint_pads.deep_view(),
            }),
            *measures,
            clearance,
        ),
{
    let ghost view = g.deep_view();
    let ghost q = RouteQuery {
        layer: layer@,
        net: net@,
        allowed: allowed_endpoint_pads.deep_view(),
    };
    let ghost segments = measures.segments@;
    let ghost pick = |s: int, segment: SegmentMeasures| measured_on(view, q, *measures, s);
    let ghost pick_hits = |s: int, segment: SegmentMeasures|
        gather_indexed(
            view.courtyards.items,
            courtyard_hits(layer@, segment.courtyards@, s, clearance),
        );
    let mut measured: Vec<Measured> = Vec::new();
    let mut courtyard_intersections: Vec<CourtyardHit> = Vec::new();
    let mut s: usize = 0;
    while s < measures.segments.len()
        invariant
            s <= measures.segments@.len(),
            route_fits(*measures, view),
            view == g.deep_view(),
            q == (RouteQuery {
                layer: layer@,
                net: net@,
                allowed: allowed_endpoint_pads.deep_view(),
            }),
            segments == measures.segments@,
            pick == (|s: int, segment: SegmentMeasures| measured_on(view, q, *measures, s)),
            pick_hits == (|s: int, segment: SegmentMeasures|
                gather_indexed(
                    view.courtyards.items,
                    courtyard_hits(layer@, segment.courtyards@, s, clearance),
                )),
            measured@ == gather_indexed(segments.take(s as int), pick),
            courtyard_intersections@ == gather_indexed(segments.take(s as int), pick_hits),
        decreases measures.segments@.len() - s,
    {
        let segment = &measures.segments[s];
        proof {
            lemma_gather_indexed_step(segments, pick, s as int);
            lemma_gather_indexed_step(segments, pick_hits, s as int);
            assert(segment_fits(measures.segments@[s as int], view));
        }
        let ghost before = measured@;
        let mut tracks = measure_tracks(&g.tracks.items, layer, net, &segment.tracks);
        let mut pads = measure_pads(
            &g.pads.items,
            layer,
            net,
            allowed_endpoint_pads,
            measures,
            s,
        );
        let mut vias = measure_vias(&g.vias.items, net, &segment.vias);
        let mut edges = measure_edges(&g.board_edges.items, &segment.edges);
        proof {
            assert(tracks@ == gather_indexed(
                view.tracks.items,
                measured_track(q, segment.tracks@),
            ));
            assert(vias@ == gather_indexed(view.vias.items, measured_via(q, segment.vias@)));
            assert(tracks@ + pads@ + vias@ + edges@ == measured_on(view, q, *measures, s as int));
        }
        let ghost found = tracks@ + pads@ + vias@ + edges@;
        measured.append(&mut tracks);
        measured.append(&mut pads);
        measured.append(&mut vias);
        measured.append(&mut edges);
        assert(measured@ == before + found);
        let mut hits = list_courtyard_hits(
            &g.courtyards.items,
            layer,
            &segment.courtyards,
            s,
            clearance,
        );
        courtyard_intersections.append(&mut hits);
        s += 1;
    }
    assert(segments.take(segments.len() as int) == segments);
    let (conflicts, minimum) = keep_colliding(&measured, clearance);
    ClearanceReport { conflicts, courtyard_intersections, minimum }
}

// What a report promises.

/// Whether an object is of another net, and for a track or a pad on the layer, or is a piece
/// of the board's edge.
pub open spec fn is_foreign(object: Obstacle, g: RoutingView, q: RouteQuery) -> bool {
    match object {
        Obstacle::Track(i) => {
            &&& i < g.tracks.items.len()
            &&& g.tracks.items[i as int].net_name != q.net
            &&& g.tracks.items[i as int].layer == q.layer
        },
        Obstacle::Pad(i) => {
            &&& i < g.pads.items.len()
            &&& g.pads.items[i as int].net_name != q.net
            &&& lies_on(g.pads.items[i as int].layers, q.layer)
        },
        Obstacle::Via(i) => {
            &&& i < g.vias.items.len()
            &&& g.vias.items[i as int].net_name != q.net
        },
        Obstacle::BoardEdge(i) => i < g.board_edges.items.len(),
    }
}

proof fn lemma_measured_source(
    g: RoutingView,
    q: RouteQuery,
    m: RouteMeasures,
    k: int,
) -> (s: int)
    requires
        0 <= k < measured_along(g, q, m).len(),
        g.tracks.items.len() <= usize::MAX,
        g.pads.items.len() <= usize::MAX,
        g.vias.items.len() <= usize::MAX,
        g.board_edges.items.len() <= usize::MAX,
    ensures
        0 <= s < m.segments@.len(),
        is_foreign(measured_along(g, q, m)[k].object, g, q),
{
    let pick = |s: int, segment: SegmentMeasures| measured_on(g, q, m, s);
    let source = lemma_gather_indexed_source(m.segments@, pick, k);
    let s = source.0;
    let tracks = gather_indexed(g.tracks.items, measured_track(q, m.segments@[s].tracks@));
    let pads = gather_indexed(g.pads.items, measured_pad(q, m, s));
    let vias = gather_indexed(g.vias.items, measured_via(q, m.segments@[s].vias@));
    let edges = gather_indexed(g.board_edges.items, measured_edge(m.segments@[s].edges@));
    let on = measured_on(g, q, m, s);
    let j = source.1;
    assert(on == tracks + pads + vias + edges);
    if j < tracks.len() {
        let inner = lemma_gather_indexed_source(
            g.tracks.items,
            measured_track(q, m.segments@[s].tracks@),
            j,
        );
        assert(on[j] == tracks[j]);
    } else if j < tracks.len() + pads.len() {
        let inner = lemma_gather_indexed_source(
            g.pads.items,
            measured_pad(q, m, s),
            j - tracks.len(),
        );
        assert(on[j] == pads[j - tracks.len()]);
    } else if j < tracks.len() + pads.len() + vias.len() {
        let inner = lemma_gather_indexed_source(
            g.vias.items,
            measured_via(q, m.segments@[s].vias@),
            j - tracks.len() - pads.len(),
        );
        assert(on[j] == vias[j - tracks.len() - pads.len()]);
    } else {
        let inner = lemma_gather_indexed_source(
            g.board_edges.items,
            measured_edge(m.segments@[s].edges@),
            j - tracks.len() - pads.len() - vias.len(),
        );
        assert(on[j] == edges[j - tracks.len() - pads.len() - vias.len()]);
    }
    s
}

/// A route collides only with objects of other nets, with tracks and pads only on its layer,
/// and with the board's edge, and only where the gap is less than the clearance. A courtyard
/// is never a collision.
pub proof fn only_foreign_objects_collide(
    report: ClearanceReport,
    g: RoutingView,
    q: RouteQuery,
    m: RouteMeasures,
    clearance: Scalar,
)
    requires
        is_report(report, g, q, m, clearance),
        g.tracks.items.len() <= usize::MAX,
        g.pads.items.len() <= usize::MAX,
        g.vias.items.len() <= usize::MAX,
        g.board_edges.items.len() <= usize::MAX,
    ensures
        forall|k: int|
            0 <= k < report.conflicts@.len() ==> {
                &&& is_foreign((#[trigger] report.conflicts@[k]).object, g, q)
                &&& report.conflicts@[k].gap.below(clearance)
            },
{
    let measured = measured_along(g, q, m);
    let pick = |found: Measured|
        if found.gap.below(clearance) {
            seq![found]
        } else {
            Seq::empty()
        };
    assert forall|k: int| 0 <= k < report.conflicts@.len() implies {
        &&& is_foreign((#[trigger] report.conflicts@[k]).object, g, q)
        &&& report.conflicts@[k].gap.below(clearance)
    } by {
        let source = lemma_gather_source(measured, pick, k);
        let s = lemma_measured_source(g, q, m, source.0);
    }
}

proof fn lemma_in_conflicts(
    report: ClearanceReport,
    g: RoutingView,
    q: RouteQuery,
    m: RouteMeasures,
    clearance: Scalar,
    s: int,
    found: Measured,
)
    requires
        is_report(report, g, q, m, clearance),
        0 <= s < m.segments@.len(),
        measured_on(g, q, m, s).contains(found),
        found.gap.below(clearance),
    ensures
        report.conflicts@.contains(found),
{
    let pick = |s: int, segment: SegmentMeasures| measured_on(g, q, m, s);
    lemma_gather_indexed_contains(m.segments@, pick, s, found);
    let measured = measured_along(g, q, m);
    let keep = |found: Measured|
        if found.gap.below(clearance) {
            seq![found]
        } else {
            Seq::empty()
        };
    let k = choose|k: int| 0 <= k < measured.len() && measured[k] == found;
    assert(keep(measured[k])[0] == found);
    lemma_gather_contains(measured, keep, k, found);
}

proof fn lemma_in_parts(
    a: Seq<Measured>,
    b: Seq<Measured>,
    c: Seq<Measured>,
    d: Seq<Measured>,
    found: Measured,
)
    requires
        a.contains(found) || b.contains(found) || c.contains(found) || d.contains(found),
    ensures
        (a + b + c + d).contains(found),
{
    let all = a + b + c + d;
    if a.contains(found) {
        let k = choose|k: int| 0 <= k < a.len() && a[k] == found;
        assert(all[k] == found);
    } else if b.contains(found) {
        let k = choose|k: int| 0 <= k < b.len() && b[k] == found;
        assert(all[a.len() + k] == found);
    } else if c.contains(found) {
        let k = choose|k: int| 0 <= k < c.len() && c[k] == found;
        assert(all[a.len() + b.len() + k] == found);
    } else {
        let k = choose|k: int| 0 <= k < d.len() && d[k] == found;
        assert(all[a.len() + b.len() + c.len() + k] == found);
    }
}

/// No track of another net on the layer, no via of another net and no piece of the board's
/// edge escapes the report, on any segment, where the gap to it is less than the clearance.
pub proof fn no_near_copper_or_edge_escapes(
    report: ClearanceReport,
    g: RoutingView,
    q: RouteQuery,
    m: RouteMeasures,
    clearance: Scalar,
    s: int,
)
    requires
        is_report(report, g, q, m, clearance),
        0 <= s < m.segments@.len(),
    ensures
        forall|i: int|
            0 <= i < g.tracks.items.len() && (#[trigger] g.tracks.items[i]).layer == q.layer
                && g.tracks.items[i].net_name != q.net && m.segments@[s].tracks@[i].below(
                clearance,
            ) ==> report.conflicts@.contains(
                (Measured {
                    object: Obstacle::Track(i as usize),
                    gap: m.segments@[s].tracks@[i],
                }),
            ),
        forall|i: int|
            0 <= i < g.vias.items.len() && (#[trigger] g.vias.items[i]).net_name != q.net
                && m.segments@[s].vias@[i].below(clearance) ==> report.conflicts@.contains(
                (Measured { object: Obstacle::Via(i as usize), gap: m.segments@[s].vias@[i] }),
            ),
        forall|i: int|
            #![trigger m.segments@[s].edges@[i]]
            0 <= i < g.board_edges.items.len() && m.segments@[s].edges@[i].below(clearance)
                ==> report.conflicts@.contains(
                (Measured {
                    object: Obstacle::BoardEdge(i as usize),
                    gap: m.segments@[s].edges@[i],
                }),
            ),
{
    let track_pick = measured_track(q, m.segments@[s].tracks@);
    let via_pick = measured_via(q, m.segments@[s].vias@);
    let edge_pick = measured_edge(m.segments@[s].edges@);
    let tracks = gather_indexed(g.tracks.items, track_pick);
    let pads = gather_indexed(g.pads.items, measured_pad(q, m, s));
    let vias = gather_indexed(g.vias.items, via_pick);
    let edges = gather_indexed(g.board_edges.items, edge_pick);
    assert forall|i: int|
        0 <= i < g.tracks.items.len() && (#[trigger] g.tracks.items[i]).layer == q.layer
            && g.tracks.items[i].net_name != q.net && m.segments@[s].tracks@[i].below(
            clearance,
        ) implies report.conflicts@.contains(
        (Measured { object: Obstacle::Track(i as usize), gap: m.segments@[s].tracks@[i] }),
    ) by {
        let found = Measured {
            object: Obstacle::Track(i as usize),
            gap: m.segments@[s].tracks@[i],
        };
        assert(track_pick(i, g.tracks.items[i])[0] == found);
        lemma_gather_indexed_contains(g.tracks.items, track_pick, i, found);
        lemma_in_parts(tracks, pads, vias, edges, found);
        lemma_in_conflicts(report, g, q, m, clearance, s, found);
    }
    assert forall|i: int|
        0 <= i < g.vias.items.len() && (#[trigger] g.vias.items[i]).net_name != q.net
            && m.segments@[s].vias@[i].below(clearance) implies report.conflicts@.contains(
        (Measured { object: Obstacle::Via(i as usize), gap: m.segments@[s].vias@[i] }),
    ) by {
        let found = Measured { object: Obstacle::Via(i as usize), gap: m.segments@[s].vias@[i] };
        assert(via_pick(i, g.vias.items[i])[0] == found);
        lemma_gather_indexed_contains(g.vias.items, via_pick, i, found);
        lemma_in_parts(tracks, pads, vias, edges, found);
        lemma_in_conflicts(report, g, q, m, clearance, s, found);
    }
    assert forall|i: int|
        #![trigger m.segments@[s].edges@[i]]
        0 <= i < g.board_edges.items.len() && m.segments@[s].edges@[i].below(
            clearance,
        ) implies report.conflicts@.contains(
        (Measured { object: Obstacle::BoardEdge(i as usize), gap: m.segments@[s].edges@[i] }),
    ) by {
        let found = Measured {
            object: Obstacle::BoardEdge(i as usize),
            gap: m.segments@[s].edges@[i],
        };
        assert(edge_pick(i, g.board_edges.items[i])[0] == found);
        lemma_gather_indexed_contains(g.board_edges.items, edge_pick, i, found);
        lemma_in_parts(tracks, pads, vias, edges, found);
        lemma_in_conflicts(report, g, q, m, clearance, s, found);
    }
}

/// A pad of another net on the layer, near a segment and of a known outline, collides where
/// the gap is less than the clearance, unless it is named among the allowed pads and the
/// segment is the first one and starts in it, or the last one and ends in it. So neither a
/// neighbour of an allowed pad nor an allowed pad that is crossed on the way is exempt.
pub proof fn a_near_pad_escapes_only_at_an_allowed_end(
    report: ClearanceReport,
    g: RoutingView,
    q: RouteQuery,
    m: RouteMeasures,
    clearance: Scalar,
    s: int,
    i: int,
)
    requires
        is_report(report, g, q, m, clearance),
        0 <= s < m.segments@.len(),
        0 <= i < g.pads.items.len(),
        g.pads.items[i].net_name != q.net,
        lies_on(g.pads.items[i].layers, q.layer),
        is_near(g.pads.items[i], m.pad_boxes@[i], m.segments@[s].envelope),
        outline_of(g.pads.items[i]) is Some,
        m.segments@[s].pads@[i].below(clearance),
    ensures
        report.conflicts@.contains(
            (Measured { object: Obstacle::Pad(i as usize), gap: m.segments@[s].pads@[i] }),
        ) || {
            &&& is_named_pad(g.pads.items[i], q.allowed)
            &&& s == 0 && lies_in(g.pads.items[i], m.start_distances@[i]) || s + 1
                == m.segments@.len() && lies_in(g.pads.items[i], m.end_distances@[i])
        },
{
    let pad = g.pads.items[i];
    if !is_exempt(pad, q.allowed, place_of(m, s), m.start_distances@[i], m.end_distances@[i]) {
        let found = Measured { object: Obstacle::Pad(i as usize), gap: m.segments@[s].pads@[i] };
        let pick = measured_pad(q, m, s);
        assert(pick(i, pad)[0] == found);
        lemma_gather_indexed_contains(g.pads.items, pick, i, found);
        lemma_in_parts(
            gather_indexed(g.tracks.items, measured_track(q, m.segments@[s].tracks@)),
            gather_indexed(g.pads.items, pick),
            gather_indexed(g.vias.items, measured_via(q, m.segments@[s].vias@)),
            gather_indexed(g.board_edges.items, measured_edge(m.segments@[s].edges@)),
            found,
        );
        lemma_in_conflicts(report, g, q, m, clearance, s, found);
    }
}

proof fn lemma_least(measured: Seq<Measured>)
    ensures
        !least(measured).not_a_number(),
        forall|k: int|
            0 <= k < measured.len() && !(#[trigger] measured[k]).gap.not_a_number() ==> least(
                measured,
            ).at_most(measured[k].gap),
    decreases measured.len(),
{
    if measured.len() > 0 {
        lemma_least(measured.drop_last());
        assert forall|k: int|
            0 <= k < measured.len() && !(#[trigger] measured[k]).gap.not_a_number() implies least(
            measured,
        ).at_most(measured[k].gap) by {
            if k < measured.len() - 1 {
                assert(measured.drop_last()[k] == measured[k]);
            }
        }
    }
}

/// The least gap of a report is at most the gap of every collision in it.
pub proof fn the_minimum_bounds_every_collision(
    report: ClearanceReport,
    g: RoutingView,
    q: RouteQuery,
    m: RouteMeasures,
    clearance: Scalar,
)
    requires
        is_report(report, g, q, m, clearance),
    ensures
        forall|k: int|
            0 <= k < report.conflicts@.len() ==> report.minimum.at_most(
                (#[trigger] report.conflicts@[k]).gap,
            ),
{
    let measured = measured_along(g, q, m);
    lemma_least(measured);
    let pick = |found: Measured|
        if found.gap.below(clearance) {
            seq![found]
        } else {
            Seq::empty()
        };
    assert forall|k: int| 0 <= k < report.conflicts@.len() implies report.minimum.at_most(
        (#[trigger] report.conflicts@[k]).gap,
    ) by {
        let source = lemma_gather_source(measured, pick, k);
        assert(report.conflicts@[k] == measured[source.0]);
    }
}

/// Whether a box holds another one.
pub open spec fn holds(outer: Region, inner: Region) -> bool {
    &&& outer.x_min.at_most(inner.x_min)
    &&& outer.y_min.at_most(inner.y_min)
    &&& inner.x_max.at_most(outer.x_max)
    &&& inner.y_max.at_most(outer.y_max)
}

/// Whether the same gaps were measured, with boxes that hold those of the other measures: what
/// a greater clearance makes of the measures of a segment.
pub open spec fn segment_widened(m: SegmentMeasures, wide: SegmentMeasures) -> bool {
    &&& holds(wide.envelope, m.envelope)
    &&& wide.tracks@ == m.tracks@
    &&& wide.pads@ == m.pads@
    &&& wide.vias@ == m.vias@
    &&& wide.edges@ == m.edges@
    &&& wide.courtyards@.len() == m.courtyards@.len()
    &&& forall|c: int|
        0 <= c < m.courtyards@.len() ==> wide.courtyards@[c]@.len() == (
        #[trigger] m.courtyards@[c])@.len()
    &&& forall|c: int, k: int|
        #![trigger m.courtyards@[c]@[k]]
        0 <= c < m.courtyards@.len() && 0 <= k < m.courtyards@[c]@.len() ==> {
            &&& wide.courtyards@[c]@[k].edge_gaps@ == m.courtyards@[c]@[k].edge_gaps@
            &&& wide.courtyards@[c]@[k].end_inside == m.courtyards@[c]@[k].end_inside
        }
}

/// What a greater clearance makes of the measures of a route.
pub open spec fn route_widened(m: RouteMeasures, wide: RouteMeasures) -> bool {
    &&& wide.pad_boxes@ == m.pad_boxes@
    &&& wide.start_distances@ == m.start_distances@
    &&& wide.end_distances@ == m.end_distances@
    &&& wide.segments@.len() == m.segments@.len()
    &&& forall|s: int|
        0 <= s < m.segments@.len() ==> segment_widened(
            #[trigger] m.segments@[s],
            wide.segments@[s],
        )
}

proof fn lemma_of_parts(
    a: Seq<Measured>,
    b: Seq<Measured>,
    c: Seq<Measured>,
    d: Seq<Measured>,
    found: Measured,
)
    requires
        (a + b + c + d).contains(found),
    ensures
        a.contains(found) || b.contains(found) || c.contains(found) || d.contains(found),
{
    let all = a + b + c + d;
    let k = choose|k: int| 0 <= k < all.len() && all[k] == found;
    if k < a.len() {
        assert(a[k] == found);
    } else if k < a.len() + b.len() {
        assert(b[k - a.len()] == found);
    } else if k < a.len() + b.len() + c.len() {
        assert(c[k - a.len() - b.len()] == found);
    } else {
        assert(d[k - a.len() - b.len() - c.len()] == found);
    }
}

/// What counts for a segment counts for it in a wider envelope.
proof fn lemma_measured_widens(
    g: RoutingView,
    q: RouteQuery,
    m: RouteMeasures,
    wide: RouteMeasures,
    s: int,
    found: Measured,
)
    requires
        route_widened(m, wide),
        0 <= s < m.segments@.len(),
        measured_on(g, q, m, s).contains(found),
    ensures
        measured_on(g, q, wide, s).contains(found),
{
    assert(segment_widened(m.segments@[s], wide.segments@[s]));
    let tracks = gather_indexed(g.tracks.items, measured_track(q, m.segments@[s].tracks@));
    let pads = gather_indexed(g.pads.items, measured_pad(q, m, s));
    let more = gather_indexed(g.pads.items, measured_pad(q, wide, s));
    let vias = gather_indexed(g.vias.items, measured_via(q, m.segments@[s].vias@));
    let edges = gather_indexed(g.board_edges.items, measured_edge(m.segments@[s].edges@));
    lemma_of_parts(tracks, pads, vias, edges, found);
    if pads.contains(found) {
        assert forall|i: int|
            #![trigger g.pads.items[i]]
            0 <= i < g.pads.items.len() && measured_pad(q, m, s)(i, g.pads.items[i]).contains(
                found,
            ) implies measured_pad(q, wide, s)(i, g.pads.items[i]).contains(found) by {
            assert(measured_pad(q, wide, s)(i, g.pads.items[i]) == measured_pad(q, m, s)(
                i,
                g.pads.items[i],
            ));
        }
        lemma_gather_indexed_carries(
            g.pads.items,
            measured_pad(q, m, s),
            g.pads.items,
            measured_pad(q, wide, s),
            found,
        );
    }
    lemma_in_parts(tracks, more, vias, edges, found);
}

/// What counts for a route counts for it in wider envelopes.
proof fn lemma_measured_along_widens(
    g: RoutingView,
    q: RouteQuery,
    m: RouteMeasures,
    wide: RouteMeasures,
    found: Measured,
)
    requires
        route_widened(m, wide),
        measured_along(g, q, m).contains(found),
    ensures
        measured_along(g, q, wide).contains(found),
{
    let pick = |s: int, segment: SegmentMeasures| measured_on(g, q, m, s);
    let more = |s: int, segment: SegmentMeasures| measured_on(g, q, wide, s);
    assert forall|s: int|
        #![trigger m.segments@[s]]
        0 <= s < m.segments@.len() && pick(s, m.segments@[s]).contains(found) implies more(
        s,
        wide.segments@[s],
    ).contains(found) by {
        lemma_measured_widens(g, q, m, wide, s, found);
    }
    lemma_gather_indexed_carries(m.segments@, pick, wide.segments@, more, found);
}

/// An edge of a polygon that is too near for a clearance is so for a greater one.
proof fn lemma_polygon_hits_grow(
    polygon: Seq<Vector2>,
    m: PolygonMeasures,
    wide: PolygonMeasures,
    c: int,
    s: int,
    low: Scalar,
    high: Scalar,
    hit: CourtyardHit,
)
    requires
        low.at_most(high),
        wide.edge_gaps@ == m.edge_gaps@,
        wide.end_inside == m.end_inside,
        polygon_hits(polygon, m, c, s, low).contains(hit),
    ensures
        polygon_hits(polygon, wide, c, s, high).contains(hit),
{
    let near = gather(m.edge_gaps@, edge_hit(c, s, low));
    let nearer = gather(m.edge_gaps@, edge_hit(c, s, high));
    let all = polygon_hits(polygon, m, c, s, low);
    let more = polygon_hits(polygon, wide, c, s, high);
    let k = choose|k: int| 0 <= k < all.len() && all[k] == hit;
    if k < near.len() {
        let source = lemma_gather_source(m.edge_gaps@, edge_hit(c, s, low), k);
        assert(edge_hit(c, s, high)(m.edge_gaps@[source.0])[0] == hit);
        lemma_gather_contains(m.edge_gaps@, edge_hit(c, s, high), source.0, hit);
        let j = choose|j: int| 0 <= j < nearer.len() && nearer[j] == hit;
        assert(more[j] == hit);
    } else {
        assert(more[nearer.len() as int] == hit);
    }
}

/// A courtyard that a route comes near to for a clearance is so for a greater one.
proof fn lemma_courtyards_grow(
    g: RoutingView,
    layer: Seq<char>,
    m: RouteMeasures,
    wide: RouteMeasures,
    low: Scalar,
    high: Scalar,
    hit: CourtyardHit,
)
    requires
        route_fits(m, g),
        route_widened(m, wide),
        low.at_most(high),
        courtyards_along(g, layer, m, low).contains(hit),
    ensures
        courtyards_along(g, layer, wide, high).contains(hit),
{
    let along = |clearance: Scalar|
        |s: int, segment: SegmentMeasures|
            gather_indexed(
                g.courtyards.items,
                courtyard_hits(layer, segment.courtyards@, s, clearance),
            );
    assert forall|s: int|
        #![trigger m.segments@[s]]
        0 <= s < m.segments@.len() && along(low)(s, m.segments@[s]).contains(hit) implies along(
        high,
    )(s, wide.segments@[s]).contains(hit) by {
        let own = m.segments@[s].courtyards@;
        let other = wide.segments@[s].courtyards@;
        assert(segment_widened(m.segments@[s], wide.segments@[s]));
        let hits = courtyard_hits(layer, own, s, low);
        let more = courtyard_hits(layer, other, s, high);
        assert forall|c: int|
            #![trigger g.courtyards.items[c]]
            0 <= c < g.courtyards.items.len() && hits(c, g.courtyards.items[c]).contains(
                hit,
            ) implies more(c, g.courtyards.items[c]).contains(hit) by {
            let polygons = g.courtyards.items[c].polygons;
            let at_low = |k: int, polygon: Seq<Vector2>|
                polygon_hits(polygon, own[c]@[k], c, s, low);
            let at_high = |k: int, polygon: Seq<Vector2>|
                polygon_hits(polygon, other[c]@[k], c, s, high);
            assert forall|k: int|
                #![trigger polygons[k]]
                0 <= k < polygons.len() && at_low(k, polygons[k]).contains(hit) implies at_high(
                k,
                polygons[k],
            ).contains(hit) by {
                lemma_polygon_hits_grow(
                    polygons[k],
                    own[c]@[k],
                    other[c]@[k],
                    c,
                    s,
                    low,
                    high,
                    hit,
                );
            }
            lemma_gather_indexed_carries(polygons, at_low, polygons, at_high, hit);
        }
        lemma_gather_indexed_carries(g.courtyards.items, hits, g.courtyards.items, more, hit);
    }
    lemma_gather_indexed_carries(m.segments@, along(low), wide.segments@, along(high), hit);
}

/// A least gap that is not infinite is the gap to something.
proof fn lemma_least_is_found(measured: Seq<Measured>)
    ensures
        least(measured) == infinity_spec() || exists|k: int|
            0 <= k < measured.len() && (#[trigger] measured[k]).gap == least(measured),
    decreases measured.len(),
{
    if measured.len() > 0 {
        lemma_least_is_found(measured.drop_last());
        assert(measured.last() == measured[measured.len() - 1]);
        if exists|k: int|
            0 <= k < measured.drop_last().len() && (#[trigger] measured.drop_last()[k]).gap
                == least(measured.drop_last()) {
            let k = choose|k: int|
                0 <= k < measured.drop_last().len() && (#[trigger] measured.drop_last()[k]).gap
                    == least(measured.drop_last());
            assert(measured[k] == measured.drop_last()[k]);
        }
    }
}

/// A greater clearance, under which pads are looked for in boxes that hold those of the lesser
/// one, finds every conflict and every courtyard that the lesser one finds, and its least gap
/// is no greater.
pub proof fn a_greater_clearance_loses_no_conflict(
    lesser: ClearanceReport,
    greater: ClearanceReport,
    g: RoutingView,
    q: RouteQuery,
    m: RouteMeasures,
    wide: RouteMeasures,
    low: Scalar,
    high: Scalar,
)
    requires
        route_fits(m, g),
        route_widened(m, wide),
        is_report(lesser, g, q, m, low),
        is_report(greater, g, q, wide, high),
        low.at_most(high),
    ensures
        forall|k: int|
            0 <= k < lesser.conflicts@.len() ==> greater.conflicts@.contains(
                #[trigger] lesser.conflicts@[k],
            ),
        forall|k: int|
            0 <= k < lesser.courtyard_intersections@.len()
                ==> greater.courtyard_intersections@.contains(
                #[trigger] lesser.courtyard_intersections@[k],
            ),
        greater.minimum.at_most(lesser.minimum),
{
    let measured = measured_along(g, q, m);
    let more = measured_along(g, q, wide);
    let pick = |clearance: Scalar|
        |found: Measured|
            if found.gap.below(clearance) {
                seq![found]
            } else {
                Seq::empty()
            };
    assert forall|k: int| 0 <= k < lesser.conflicts@.len() implies greater.conflicts@.contains(
        #[trigger] lesser.conflicts@[k],
    ) by {
        let source = lemma_gather_source(measured, pick(low), k);
        let found = measured[source.0];
        lemma_measured_along_widens(g, q, m, wide, found);
        let i = choose|i: int| 0 <= i < more.len() && more[i] == found;
        assert(pick(high)(found)[0] == found);
        lemma_gather_contains(more, pick(high), i, found);
    }
    assert forall|k: int| 0 <= k < lesser.courtyard_intersections@.len() implies
        greater.courtyard_intersections@.contains(
        #[trigger] lesser.courtyard_intersections@[k],
    ) by {
        let hit = lesser.courtyard_intersections@[k];
        assert(courtyards_along(g, q.layer, m, low)[k] == hit);
        lemma_courtyards_grow(g, q.layer, m, wide, low, high, hit);
    }
    lemma_least(measured);
    lemma_least(more);
    lemma_least_is_found(measured);
    if least(measured) != infinity_spec() {
        let k = choose|k: int|
            0 <= k < measured.len() && (#[trigger] measured[k]).gap == least(measured);
        lemma_measured_along_widens(g, q, m, wide, measured[k]);
        let i = choose|i: int| 0 <= i < more.len() && more[i] == measured[k];
        assert(least(more).at_most(more[i].gap));
    }
}

} // verus!
