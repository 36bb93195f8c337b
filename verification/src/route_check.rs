//! The verdict on a proposed route.
//!
//! A route is called safe only where everything that could speak against it was looked at:
//! what cannot be judged counts against it.

use crate::board::{
    IpcLayer, IpcPadGeometry, IpcPolygonGeometry, IpcRoutingGeometry, IpcTrackArc, LayerView,
    PadView, PolygonView, RoutingView, TrackArcView,
};
use crate::clearance::{
    bbox_intersects, calculate_clearance, is_near, is_on, is_report, lies_on, overlap,
    pad_intersects_segment_search_envelope, route_fits, ClearanceReport, Measured, Obstacle,
    RouteMeasures, RouteQuery,
};
use crate::gather::{
    gather_indexed, lemma_gather_indexed_contains, lemma_gather_indexed_step,
};
use crate::json::{
    allowed_pads, parse_allowed_endpoint_pads, parse_points, read_of, refuse, require_f64,
    require_str, required_number, required_text, route_points, AllowedEndpointPad, AllowedPadView,
    Json, Read, Region, ToolError, ToolErrorView,
};
use crate::messages::Vector2;
use crate::scalar::{zero, zero_spec, Point, Scalar};
use crate::text;
use vstd::prelude::*;
use vstd::string::*;

verus! {

// The request.

/// A route that is to be checked. Lengths are in millimetres.
#[derive(Debug)]
pub struct RouteRequest {
    pub points: Vec<Point>,
    pub layer: String,
    pub net: String,
    pub trace_width: Scalar,
    pub required_clearance: Scalar,
    pub allowed_endpoint_pads: Vec<AllowedEndpointPad>,
}

#[verifier::ext_equal]
pub struct RouteRequestView {
    pub points: Seq<Point>,
    pub layer: Seq<char>,
    pub net: Seq<char>,
    pub trace_width: Scalar,
    pub required_clearance: Scalar,
    pub allowed_endpoint_pads: Seq<AllowedPadView>,
}

impl DeepView for RouteRequest {
    type V = RouteRequestView;

    open spec fn deep_view(&self) -> RouteRequestView {
        RouteRequestView {
            points: self.points.deep_view(),
            layer: self.layer@,
            net: self.net@,
            trace_width: self.trace_width,
            required_clearance: self.required_clearance,
            allowed_endpoint_pads: self.allowed_endpoint_pads.deep_view(),
        }
    }
}

/// A width, which must be positive.
pub open spec fn positive_width(args: Json) -> Read<Scalar> {
    match required_number(args, "trace_width"@) {
        Err(e) => Err(e),
        Ok(width) => if zero_spec().below(width) {
            Ok(width)
        } else {
            Err(ToolErrorView::Said("trace_width must be positive"@))
        },
    }
}

/// A clearance, which must not be negative.
pub open spec fn clearance_in(args: Json) -> Read<Scalar> {
    match required_number(args, "required_clearance"@) {
        Err(e) => Err(e),
        Ok(clearance) => if zero_spec().at_most(clearance) {
            Ok(clearance)
        } else {
            Err(ToolErrorView::Said("required_clearance must be non-negative"@))
        },
    }
}

/// The route that the arguments ask about. The first of them that is amiss is named.
pub open spec fn route_request(args: Json) -> Read<RouteRequestView> {
    match (
        route_points(args),
        required_text(args, "layer"@),
        required_text(args, "net"@),
        positive_width(args),
        clearance_in(args),
        allowed_pads(args),
    ) {
        (Err(e), _, _, _, _, _) => Err(e),
        (_, Err(e), _, _, _, _) => Err(e),
        (_, _, Err(e), _, _, _) => Err(e),
        (_, _, _, Err(e), _, _) => Err(e),
        (_, _, _, _, Err(e), _) => Err(e),
        (_, _, _, _, _, Err(e)) => Err(e),
        (
            Ok(points),
            Ok(layer),
            Ok(net),
            Ok(trace_width),
            Ok(required_clearance),
            Ok(allowed_endpoint_pads),
        ) => Ok(
            RouteRequestView {
                points,
                layer,
                net,
                trace_width,
                required_clearance,
                allowed_endpoint_pads,
            },
        ),
    }
}

/// Reads the route that the arguments ask about.
pub fn parse_route_request(args: &Json) -> (r: Result<RouteRequest, ToolError>)
    ensures
        read_of(r) == route_request(*args),
{
    let points = match parse_points(args) {
        Ok(points) => points,
        Err(e) => {
            return Err(e);
        },
    };
    let layer = match require_str(args, "layer") {
        Ok(layer) => layer,
        Err(e) => {
            return Err(e);
        },
    };
    let net = match require_str(args, "net") {
        Ok(net) => net,
        Err(e) => {
            return Err(e);
        },
    };
    let trace_width = match require_f64(args, "trace_width") {
        Ok(width) => {
            if !zero().lt(width) {
                return Err(refuse("trace_width must be positive"));
            }
            width
        },
        Err(e) => {
            return Err(e);
        },
    };
    let required_clearance = match require_f64(args, "required_clearance") {
        Ok(clearance) => {
            if !zero().le(clearance) {
                return Err(refuse("required_clearance must be non-negative"));
            }
            clearance
        },
        Err(e) => {
            return Err(e);
        },
    };
    let allowed_endpoint_pads = match parse_allowed_endpoint_pads(args) {
        Ok(pads) => pads,
        Err(e) => {
            return Err(e);
        },
    };
    Ok(
        RouteRequest {
            points,
            layer,
            net,
            trace_width,
            required_clearance,
            allowed_endpoint_pads,
        },
    )
}

/// A request that is read has at least two points, a positive width and a clearance that is
/// not negative.
pub proof fn a_route_request_is_proper(args: Json)
    ensures
        route_request(args) matches Ok(request) ==> {
            &&& request.points.len() >= 2
            &&& zero_spec().below(request.trace_width)
            &&& zero_spec().at_most(request.required_clearance)
        },
{
}

// What the caller measured.

/// A polygon of a zone: its box, whether each point of the route lies inside, and the
/// distance of each segment of the route from each of its edges.
#[derive(Debug)]
pub struct ZoneMeasures {
    pub bounds: Region,
    pub points_inside: Vec<bool>,
    pub edge_distances: Vec<Scalar>,
}

/// The corridor of a route: how far it reaches on both sides, the box around the whole, the
/// boxes around its segments, and what lies near it.
#[derive(Debug)]
pub struct CorridorMeasures {
    pub margin: Scalar,
    pub route_box: Region,
    pub segment_boxes: Vec<Region>,
    pub pad_boxes: Vec<Region>,
    pub arc_boxes: Vec<Region>,
    pub zones: Vec<Vec<ZoneMeasures>>,
}

/// Whether the measures of a corridor are those of a board.
pub open spec fn corridor_fits(m: CorridorMeasures, g: RoutingView) -> bool {
    &&& m.pad_boxes@.len() == g.pads.items.len()
    &&& m.arc_boxes@.len() == g.track_arcs.items.len()
    &&& m.zones@.len() == g.zones.items.len()
    &&& forall|i: int|
        0 <= i < m.zones@.len() ==> (#[trigger] m.zones@[i])@.len()
            == g.zones.items[i].polygons.len()
}

// What cannot be judged.

/// Something in the way of a route that cannot be judged.
#[derive(Clone, Copy, Debug, PartialEq, Eq, Structural)]
pub enum Unsupported {
    Pad(usize),
    TrackArcsUnavailable,
    TrackArc(usize),
    ZonesUnavailable,
    /// A zone, and whether it reaches into the corridor.
    Zone { index: usize, relevant: bool },
    EdgesUnavailable,
}

/// Whether a pad is near any segment of the route.
pub open spec fn is_near_route(pad: PadView, own_box: Region, segment_boxes: Seq<Region>) -> bool {
    exists|s: int|
        0 <= s < segment_boxes.len() && is_near(pad, own_box, #[trigger] segment_boxes[s])
}

/// A pad of another net on the layer whose outline is not known, near any segment of the route.
pub open spec fn unsupported_pad(
    layer: Seq<char>,
    net: Seq<char>,
    m: CorridorMeasures,
) -> spec_fn(int, PadView) -> Seq<Unsupported> {
    |i: int, pad: PadView|
        if !pad.geometry_supported && pad.net_name != net && lies_on(pad.layers, layer)
            && is_near_route(pad, m.pad_boxes@[i], m.segment_boxes@) {
            seq![Unsupported::Pad(i as usize)]
        } else {
            Seq::empty()
        }
}

/// A track arc of another net on the layer whose box meets that of the route.
pub open spec fn unsupported_arc(
    layer: Seq<char>,
    net: Seq<char>,
    m: CorridorMeasures,
) -> spec_fn(int, TrackArcView) -> Seq<Unsupported> {
    |i: int, arc: TrackArcView|
        if arc.layer == layer && arc.net_name != net && overlap(m.route_box, m.arc_boxes@[i]) {
            seq![Unsupported::TrackArc(i as usize)]
        } else {
            Seq::empty()
        }
}

/// Whether a polygon with so many corners reaches into the corridor. One with fewer than
/// three corners is taken to.
pub open spec fn reaches_corridor(
    corners: nat,
    m: ZoneMeasures,
    route_box: Region,
    margin: Scalar,
) -> bool {
    corners < 3 || (overlap(route_box, m.bounds) && (m.points_inside@.contains(true) || exists|
        k: int,
    |
        0 <= k < m.edge_distances@.len() && (#[trigger] m.edge_distances@[k]).at_most(margin)))
}

/// Whether a zone has an outline: polygons, each with at least three corners.
pub open spec fn has_outline(polygons: Seq<Seq<Vector2>>) -> bool {
    polygons.len() > 0 && forall|k: int|
        0 <= k < polygons.len() ==> (#[trigger] polygons[k]).len() >= 3
}

/// Whether a zone reaches into the corridor with any of its polygons.
pub open spec fn is_relevant(
    polygons: Seq<Seq<Vector2>>,
    m: Seq<ZoneMeasures>,
    route_box: Region,
    margin: Scalar,
) -> bool {
    exists|k: int|
        0 <= k < polygons.len() && reaches_corridor(
            (#[trigger] polygons[k]).len(),
            m[k],
            route_box,
            margin,
        )
}

/// The net of a zone, empty where it has none.
pub open spec fn net_of_zone(zone: PolygonView) -> Seq<char> {
    match zone.net_name {
        Some(name) => name,
        None => Seq::empty(),
    }
}

pub fn zone_net_is(zone: &IpcPolygonGeometry, net: &str) -> (r: bool)
    ensures
        r == (net_of_zone(zone.deep_view()) == net@),
{
    match &zone.net_name {
        Some(name) => text::same(name.as_str(), net),
        None => {
            proof {
                if net@.len() == 0 {
                    assert(net@ == Seq::<char>::empty());
                }
            }
            net.is_empty()
        },
    }
}

/// A zone of another net on the layer that reaches into the corridor or has no outline.
pub open spec fn unsupported_zone(
    layer: Seq<char>,
    net: Seq<char>,
    m: CorridorMeasures,
) -> spec_fn(int, PolygonView) -> Seq<Unsupported> {
    |i: int, zone: PolygonView|
        {
            let relevant = is_relevant(zone.polygons, m.zones@[i]@, m.route_box, m.margin);
            if zone.layer == layer && net_of_zone(zone) != net && (relevant || !has_outline(
                zone.polygons,
            )) {
                seq![Unsupported::Zone { index: i as usize, relevant }]
            } else {
                Seq::empty()
            }
        }
}

/// All that stands in the way of a route and cannot be judged.
pub open spec fn unsupported_along(
    g: RoutingView,
    layer: Seq<char>,
    net: Seq<char>,
    m: CorridorMeasures,
) -> Seq<Unsupported> {
    gather_indexed(g.pads.items, unsupported_pad(layer, net, m)) + (if !g.track_arcs.available {
        seq![Unsupported::TrackArcsUnavailable]
    } else {
        gather_indexed(g.track_arcs.items, unsupported_arc(layer, net, m))
    }) + (if !g.zones.available {
        seq![Unsupported::ZonesUnavailable]
    } else {
        gather_indexed(g.zones.items, unsupported_zone(layer, net, m))
    }) + (if !g.board_edges.available {
        seq![Unsupported::EdgesUnavailable]
    } else {
        Seq::empty()
    })
}

fn comes_near(pad: &IpcPadGeometry, own_box: Region, segment_boxes: &Vec<Region>) -> (r: bool)
    ensures
        r == is_near_route(pad.deep_view(), own_box, segment_boxes@),
{
    let mut s: usize = 0;
    while s < segment_boxes.len()
        invariant
            s <= segment_boxes@.len(),
            forall|j: int|
                0 <= j < s ==> !is_near(
                    pad.deep_view(),
                    own_box,
                    #[trigger] segment_boxes@[j],
                ),
        decreases segment_boxes@.len() - s,
    {
        if pad_intersects_segment_search_envelope(pad, own_box, segment_boxes[s]) {
            return true;
        }
        s += 1;
    }
    false
}

fn find_pads(pads: &Vec<IpcPadGeometry>, layer: &str, net: &str, m: &CorridorMeasures) -> (r: Vec<
    Unsupported,
>)
    requires
        m.pad_boxes@.len() == pads@.len(),
    ensures
        r@ == gather_indexed(pads.deep_view(), unsupported_pad(layer@, net@, *m)),
{
    let ghost all = pads.deep_view();
    let ghost pick = unsupported_pad(layer@, net@, *m);
    let mut out: Vec<Unsupported> = Vec::new();
    let mut i: usize = 0;
    while i < pads.len()
        invariant
            i <= pads@.len(),
            m.pad_boxes@.len() == pads@.len(),
            all == pads.deep_view(),
            pick == unsupported_pad(layer@, net@, *m),
            out@ == gather_indexed(all.take(i as int), pick),
        decreases pads@.len() - i,
    {
        let pad = &pads[i];
        proof {
            assert(all[i as int] == pad.deep_view());
            lemma_gather_indexed_step(all, pick, i as int);
        }
        if !pad.geometry_supported && !text::same(pad.net_name.as_str(), net) && is_on(
            &pad.layers,
            layer,
        ) && comes_near(pad, m.pad_boxes[i], &m.segment_boxes) {
            out.push(Unsupported::Pad(i));
        }
        i += 1;
    }
    assert(all.take(all.len() as int) == all);
    out
}

fn find_arcs(arcs: &Vec<IpcTrackArc>, layer: &str, net: &str, m: &CorridorMeasures) -> (r: Vec<
    Unsupported,
>)
    requires
        m.arc_boxes@.len() == arcs@.len(),
    ensures
        r@ == gather_indexed(arcs.deep_view(), unsupported_arc(layer@, net@, *m)),
{
    let ghost all = arcs.deep_view();
    let ghost pick = unsupported_arc(layer@, net@, *m);
    let mut out: Vec<Unsupported> = Vec::new();
    let mut i: usize = 0;
    while i < arcs.len()
        invariant
            i <= arcs@.len(),
            m.arc_boxes@.len() == arcs@.len(),
            all == arcs.deep_view(),
            pick == unsupported_arc(layer@, net@, *m),
            out@ == gather_indexed(all.take(i as int), pick),
        decreases arcs@.len() - i,
    {
        let arc = &arcs[i];
        proof {
            assert(all[i as int] == arc.deep_view());
            lemma_gather_indexed_step(all, pick, i as int);
        }
        if text::same(arc.layer.as_str(), layer) && !text::same(arc.net_name.as_str(), net)
            && bbox_intersects(m.route_box, m.arc_boxes[i]) {
            out.push(Unsupported::TrackArc(i));
        }
        i += 1;
    }
    assert(all.take(all.len() as int) == all);
    out
}

/// Whether a polygon reaches into the corridor of a route.
pub fn polygon_intersects_route(
    polygon: &Vec<Vector2>,
    m: &ZoneMeasures,
    route_box: Region,
    margin: Scalar,
) -> (r: bool)
    ensures
        r == reaches_corridor(polygon@.len(), *m, route_box, margin),
{
    if polygon.len() < 3 {
        return true;
    }
    if !bbox_intersects(route_box, m.bounds) {
        return false;
    }
    let mut i: usize = 0;
    while i < m.points_inside.len()
        invariant
            i <= m.points_inside@.len(),
            overlap(route_box, m.bounds),
            forall|j: int| 0 <= j < i ==> !#[trigger] m.points_inside@[j],
        decreases m.points_inside@.len() - i,
    {
        if m.points_inside[i] {
            assert(m.points_inside@.contains(true));
            return true;
        }
        i += 1;
    }
    let mut k: usize = 0;
    while k < m.edge_distances.len()
        invariant
            k <= m.edge_distances@.len(),
            overlap(route_box, m.bounds),
            forall|j: int| 0 <= j < k ==> !(#[trigger] m.edge_distances@[j]).at_most(margin),
        decreases m.edge_distances@.len() - k,
    {
        if m.edge_distances[k].le(margin) {
            return true;
        }
        k += 1;
    }
    false
}

/// Whether a zone has an outline.
pub fn outline_is_supported(polygons: &Vec<Vec<Vector2>>) -> (r: bool)
    ensures
        r == has_outline(polygons.deep_view()),
{
    let ghost all = polygons.deep_view();
    if polygons.len() == 0 {
        return false;
    }
    let mut k: usize = 0;
    while k < polygons.len()
        invariant
            k <= polygons@.len(),
            all == polygons.deep_view(),
            forall|j: int| 0 <= j < k ==> (#[trigger] all[j]).len() >= 3,
        decreases polygons@.len() - k,
    {
        assert(all[k as int].len() == polygons@[k as int]@.len());
        if polygons[k].len() < 3 {
            return false;
        }
        k += 1;
    }
    true
}

fn zone_is_relevant(
    polygons: &Vec<Vec<Vector2>>,
    m: &Vec<ZoneMeasures>,
    route_box: Region,
    margin: Scalar,
) -> (r: bool)
    requires
        m@.len() == polygons@.len(),
    ensures
        r == is_relevant(polygons.deep_view(), m@, route_box, margin),
{
    let ghost all = polygons.deep_view();
    let mut k: usize = 0;
    while k < polygons.len()
        invariant
            k <= polygons@.len(),
            m@.len() == polygons@.len(),
            all == polygons.deep_view(),
            forall|j: int|
                0 <= j < k ==> !reaches_corridor(
                    (#[trigger] all[j]).len(),
                    m@[j],
                    route_box,
                    margin,
                ),
        decreases polygons@.len() - k,
    {
        assert(all[k as int].len() == polygons@[k as int]@.len());
        if polygon_intersects_route(&polygons[k], &m[k], route_box, margin) {
            return true;
        }
        k += 1;
    }
    false
}

fn find_zones(zones: &Vec<IpcPolygonGeometry>, layer: &str, net: &str, m: &CorridorMeasures) -> (r:
    Vec<Unsupported>)
    requires
        m.zones@.len() == zones@.len(),
        forall|i: int|
            0 <= i < m.zones@.len() ==> (#[trigger] m.zones@[i])@.len() == zones@[i].polygons@.len(),
    ensures
        r@ == gather_indexed(zones.deep_view(), unsupported_zone(layer@, net@, *m)),
{
    let ghost all = zones.deep_view();
    let ghost pick = unsupported_zone(layer@, net@, *m);
    let mut out: Vec<Unsupported> = Vec::new();
    let mut i: usize = 0;
    while i < zones.len()
        invariant
            i <= zones@.len(),
            m.zones@.len() == zones@.len(),
            forall|j: int|
                0 <= j < m.zones@.len() ==> (#[trigger] m.zones@[j])@.len()
                    == zones@[j].polygons@.len(),
            all == zones.deep_view(),
            pick == unsupported_zone(layer@, net@, *m),
            out@ == gather_indexed(all.take(i as int), pick),
        decreases zones@.len() - i,
    {
        let zone = &zones[i];
        proof {
            assert(all[i as int] == zone.deep_view());
            lemma_gather_indexed_step(all, pick, i as int);
            assert(m.zones@[i as int]@.len() == zone.polygons@.len());
        }
        if text::same(zone.layer.as_str(), layer) && !zone_net_is(zone, net) {
            let relevant = zone_is_relevant(&zone.polygons, &m.zones[i], m.route_box, m.margin);
            if relevant || !outline_is_supported(&zone.polygons) {
                out.push(Unsupported::Zone { index: i, relevant });
            }
        }
        i += 1;
    }
    assert(all.take(all.len() as int) == all);
    out
}

/// All that stands in the way of a route and cannot be judged.
pub fn candidate_unsupported_geometry(
    g: &IpcRoutingGeometry,
    layer: &str,
    net: &str,
    m: &CorridorMeasures,
) -> (r: Vec<Unsupported>)
    requires
        corridor_fits(*m, g.deep_view()),
    ensures
        r@ == unsupported_along(g.deep_view(), layer@, net@, *m),
{
    proof {
        assert forall|i: int| 0 <= i < m.zones@.len() implies (#[trigger] m.zones@[i])@.len()
            == g.zones.items@[i].polygons@.len() by {
            assert(g.deep_view().zones.items[i] == g.zones.items@[i].deep_view());
        }
    }
    let mut encountered = find_pads(&g.pads.items, layer, net, m);
    let ghost pads = encountered@;
    let mut arcs: Vec<Unsupported> = if !g.track_arcs.available {
        vec![Unsupported::TrackArcsUnavailable]
    } else {
        find_arcs(&g.track_arcs.items, layer, net, m)
    };
    let mut zones: Vec<Unsupported> = if !g.zones.available {
        vec![Unsupported::ZonesUnavailable]
    } else {
        find_zones(&g.zones.items, layer, net, m)
    };
    let ghost arc_list = arcs@;
    let ghost zone_list = zones@;
    encountered.append(&mut arcs);
    encountered.append(&mut zones);
    if !g.board_edges.available {
        encountered.push(Unsupported::EdgesUnavailable);
    }
    proof {
        let view = g.deep_view();
        if !view.track_arcs.available {
            assert(arc_list == seq![Unsupported::TrackArcsUnavailable]);
        }
        if !view.zones.available {
            assert(zone_list == seq![Unsupported::ZonesUnavailable]);
        }
        assert(encountered@ == pads + arc_list + zone_list + (if !view.board_edges.available {
            seq![Unsupported::EdgesUnavailable]
        } else {
            Seq::empty()
        }));
    }
    encountered
}

/// A reason, or `otherwise` where none is given.
pub open spec fn reason_or(reason: Option<Seq<char>>, otherwise: Seq<char>) -> Seq<char> {
    match reason {
        Some(said) => said,
        None => otherwise,
    }
}

pub fn copy_reason(reason: &Option<String>, otherwise: &str) -> (r: String)
    ensures
        r@ == reason_or(reason.deep_view(), otherwise@),
{
    match reason {
        Some(said) => said.clone(),
        None => otherwise.to_owned(),
    }
}

/// Why something cannot be judged.
pub open spec fn unsupported_reason(found: Unsupported, g: RoutingView) -> Seq<char> {
    match found {
        Unsupported::Pad(i) => reason_or(
            g.pads.items[i as int].geometry_reason,
            "unsupported pad geometry"@,
        ),
        Unsupported::TrackArcsUnavailable => reason_or(
            g.track_arcs.reason,
            "track arc geometry unavailable"@,
        ),
        Unsupported::TrackArc(_) =>
            "track arc intersects candidate clearance envelope; exact arc clearance is unavailable"@,
        Unsupported::ZonesUnavailable => reason_or(
            g.zones.reason,
            "copper-zone geometry unavailable"@,
        ),
        Unsupported::Zone { relevant, .. } => if relevant {
            "foreign zone fill/holes are unavailable in the candidate corridor"@
        } else {
            "foreign zone outline is unavailable"@
        },
        Unsupported::EdgesUnavailable => reason_or(
            g.board_edges.reason,
            "Edge.Cuts geometry unavailable"@,
        ),
    }
}

impl Unsupported {
    /// Why it cannot be judged.
    pub fn reason(&self, g: &IpcRoutingGeometry) -> (r: String)
        requires
            *self matches Unsupported::Pad(i) ==> i < g.pads.items@.len(),
        ensures
            r@ == unsupported_reason(*self, g.deep_view()),
    {
        match self {
            Unsupported::Pad(i) => {
                assert(g.deep_view().pads.items[*i as int] == g.pads.items@[*i as int].deep_view());
                copy_reason(&g.pads.items[*i].geometry_reason, "unsupported pad geometry")
            },
            Unsupported::TrackArcsUnavailable => copy_reason(
                &g.track_arcs.reason,
                "track arc geometry unavailable",
            ),
            Unsupported::TrackArc(_) =>
                "track arc intersects candidate clearance envelope; exact arc clearance is unavailable".to_owned(),
            Unsupported::ZonesUnavailable => copy_reason(
                &g.zones.reason,
                "copper-zone geometry unavailable",
            ),
            Unsupported::Zone { relevant, .. } => if *relevant {
                "foreign zone fill/holes are unavailable in the candidate corridor".to_owned()
            } else {
                "foreign zone outline is unavailable".to_owned()
            },
            Unsupported::EdgesUnavailable => copy_reason(
                &g.board_edges.reason,
                "Edge.Cuts geometry unavailable",
            ),
        }
    }
}

// The board's edge.

/// Whether the board's edge can be checked.
#[derive(Debug)]
pub enum EdgeCheck {
    Supported { primitive_count: usize },
    Unsupported { reason: String },
}

pub open spec fn is_edge_check(check: EdgeCheck, g: RoutingView) -> bool {
    match check {
        EdgeCheck::Supported { primitive_count } => g.board_edges.available && primitive_count
            == g.board_edges.items.len(),
        EdgeCheck::Unsupported { reason } => !g.board_edges.available && reason@ == reason_or(
            g.board_edges.reason,
            "Edge.Cuts geometry unavailable"@,
        ),
    }
}

/// Whether the board's edge can be checked.
pub fn board_edge_check_status(g: &IpcRoutingGeometry) -> (r: EdgeCheck)
    ensures
        is_edge_check(r, g.deep_view()),
{
    if g.board_edges.available {
        EdgeCheck::Supported { primitive_count: g.board_edges.items.len() }
    } else {
        EdgeCheck::Unsupported {
            reason: copy_reason(&g.board_edges.reason, "Edge.Cuts geometry unavailable"),
        }
    }
}

// The verdict.

/// Whether a layer is among those of the board.
pub open spec fn has_layer(layers: Seq<LayerView>, name: Seq<char>) -> bool {
    exists|i: int| 0 <= i < layers.len() && (#[trigger] layers[i]).name == name
}

fn lists_layer(layers: &Vec<IpcLayer>, name: &str) -> (r: bool)
    ensures
        r == has_layer(layers.deep_view(), name@),
{
    let ghost all = layers.deep_view();
    let mut i: usize = 0;
    while i < layers.len()
        invariant
            i <= layers@.len(),
            all == layers.deep_view(),
            forall|j: int| 0 <= j < i ==> (#[trigger] all[j]).name != name@,
        decreases layers@.len() - i,
    {
        assert(all[i as int] == layers@[i as int].deep_view());
        if text::same(layers[i].name.as_str(), name) {
            return true;
        }
        i += 1;
    }
    false
}

/// Whether the copper that a route has to mind is known, and its layer exists.
pub open spec fn copper_is_known(g: RoutingView, layer: Seq<char>) -> bool {
    &&& g.tracks.available
    &&& g.pads.available
    &&& g.vias.available
    &&& g.layers.available
    &&& has_layer(g.layers.items, layer)
}

/// Whether a collision is with the board's edge.
pub open spec fn hits_edge(conflicts: Seq<Measured>) -> bool {
    exists|i: int| 0 <= i < conflicts.len() && (#[trigger] conflicts[i]).object is BoardEdge
}

fn any_edge_hit(conflicts: &Vec<Measured>) -> (r: bool)
    ensures
        r == hits_edge(conflicts@),
{
    let mut i: usize = 0;
    while i < conflicts.len()
        invariant
            i <= conflicts@.len(),
            forall|j: int| 0 <= j < i ==> !((#[trigger] conflicts@[j]).object is BoardEdge),
        decreases conflicts@.len() - i,
    {
        match conflicts[i].object {
            Obstacle::BoardEdge(_) => {
                return true;
            },
            _ => {},
        }
        i += 1;
    }
    false
}

/// The verdict on a route.
#[derive(Debug)]
pub struct RouteCheck {
    pub report: ClearanceReport,
    pub encountered_unsupported_geometry: Vec<Unsupported>,
    pub board_edge_check: EdgeCheck,
    pub required_copper_supported: bool,
    pub board_edge_check_passed: bool,
    pub collision_free: bool,
    pub globally_safe: bool,
    /// The least gap, where there is any.
    pub minimum_clearance: Option<Scalar>,
}

/// Whether a verdict is the one for a route.
pub open spec fn is_route_check(
    check: RouteCheck,
    g: RoutingView,
    q: RouteQuery,
    clearance: Scalar,
    measures: RouteMeasures,
    corridor: CorridorMeasures,
) -> bool {
    &&& is_report(check.report, g, q, measures, clearance)
    &&& check.encountered_unsupported_geometry@ == unsupported_along(g, q.layer, q.net, corridor)
    &&& is_edge_check(check.board_edge_check, g)
    &&& check.required_copper_supported == copper_is_known(g, q.layer)
    &&& check.board_edge_check_passed == (g.board_edges.available && !hits_edge(
        check.report.conflicts@,
    ))
    &&& check.collision_free == (check.report.conflicts@.len() == 0)
    &&& check.globally_safe == (check.collision_free && check.required_copper_supported
        && check.board_edge_check_passed && check.encountered_unsupported_geometry@.len() == 0)
    &&& check.minimum_clearance == (if check.report.minimum.finite() {
        Some(check.report.minimum)
    } else {
        None
    })
}

/// Judges a route.
pub fn check_route_clearance(
    g: &IpcRoutingGeometry,
    layer: &str,
    net: &str,
    clearance: Scalar,
    allowed_endpoint_pads: &Vec<AllowedEndpointPad>,
    measures: &RouteMeasures,
    corridor: &CorridorMeasures,
) -> (r: RouteCheck)
    requires
        route_fits(*measures, g.deep_view()),
        corridor_fits(*corridor, g.deep_view()),
    ensures
        is_route_check(
            r,
            g.deep_view(),
            (RouteQuery {
                layer: layer@,
                net: net@,
                allowed: allowed_endpoint_pads.deep_view(),
            }),
            clearance,
            *measures,
            *corridor,
        ),
{
    let report = calculate_clearance(g, layer, net, clearance, allowed_endpoint_pads, measures);
    let required_copper_supported = g.tracks.available && g.pads.available && g.vias.available
        && g.layers.available && lists_layer(&g.layers.items, layer);
    let board_edge_check = board_edge_check_status(g);
    let encountered_unsupported_geometry = candidate_unsupported_geometry(g, layer, net, corridor);
    let board_edge_check_passed = g.board_edges.available && !any_edge_hit(&report.conflicts);
    let collision_free = report.conflicts.len() == 0;
    let globally_safe = collision_free && required_copper_supported && board_edge_check_passed
        && encountered_unsupported_geometry.len() == 0;
    let minimum_clearance = if report.minimum.is_finite() {
        Some(report.minimum)
    } else {
        None
    };
    RouteCheck {
        report,
        encountered_unsupported_geometry,
        board_edge_check,
        required_copper_supported,
        board_edge_check_passed,
        collision_free,
        globally_safe,
        minimum_clearance,
    }
}

/// A safe route collides with nothing, and every class of geometry that bears on it was
/// available: a class that could not be had makes a route unsafe.
pub proof fn a_safe_route_was_fully_checked(
    check: RouteCheck,
    g: RoutingView,
    q: RouteQuery,
    clearance: Scalar,
    measures: RouteMeasures,
    corridor: CorridorMeasures,
)
    requires
        is_route_check(check, g, q, clearance, measures, corridor),
        check.globally_safe,
    ensures
        check.report.conflicts@.len() == 0,
        g.layers.available && has_layer(g.layers.items, q.layer),
        g.tracks.available,
        g.track_arcs.available,
        g.pads.available,
        g.vias.available,
        g.zones.available,
        g.board_edges.available,
{
    let found = unsupported_along(g, q.layer, q.net, corridor);
    let pads = gather_indexed(g.pads.items, unsupported_pad(q.layer, q.net, corridor));
    if !g.track_arcs.available {
        assert(found[pads.len() as int] == Unsupported::TrackArcsUnavailable);
    }
    if !g.zones.available {
        let arcs = if !g.track_arcs.available {
            seq![Unsupported::TrackArcsUnavailable]
        } else {
            gather_indexed(g.track_arcs.items, unsupported_arc(q.layer, q.net, corridor))
        };
        assert(found[pads.len() as int + arcs.len() as int] == Unsupported::ZonesUnavailable);
    }
}

/// A pad of another net whose outline is not known, a track arc of another net and a zone of
/// another net make a route on their layer unsafe where they come near it.
pub proof fn what_cannot_be_judged_makes_a_route_unsafe(
    check: RouteCheck,
    g: RoutingView,
    q: RouteQuery,
    clearance: Scalar,
    measures: RouteMeasures,
    corridor: CorridorMeasures,
)
    requires
        is_route_check(check, g, q, clearance, measures, corridor),
        check.globally_safe,
    ensures
        forall|i: int|
            0 <= i < g.pads.items.len() && !(#[trigger] g.pads.items[i]).geometry_supported
                && g.pads.items[i].net_name != q.net && lies_on(g.pads.items[i].layers, q.layer)
                ==> !is_near_route(
                g.pads.items[i],
                corridor.pad_boxes@[i],
                corridor.segment_boxes@,
            ),
        forall|i: int|
            0 <= i < g.track_arcs.items.len() && (#[trigger] g.track_arcs.items[i]).layer
                == q.layer && g.track_arcs.items[i].net_name != q.net ==> !overlap(
                corridor.route_box,
                corridor.arc_boxes@[i],
            ),
        forall|i: int|
            0 <= i < g.zones.items.len() && (#[trigger] g.zones.items[i]).layer == q.layer
                && net_of_zone(g.zones.items[i]) != q.net ==> has_outline(
                g.zones.items[i].polygons,
            ) && !is_relevant(
                g.zones.items[i].polygons,
                corridor.zones@[i]@,
                corridor.route_box,
                corridor.margin,
            ),
{
    a_safe_route_was_fully_checked(check, g, q, clearance, measures, corridor);
    let pad_pick = unsupported_pad(q.layer, q.net, corridor);
    let arc_pick = unsupported_arc(q.layer, q.net, corridor);
    let zone_pick = unsupported_zone(q.layer, q.net, corridor);
    let pads = gather_indexed(g.pads.items, pad_pick);
    let arcs = gather_indexed(g.track_arcs.items, arc_pick);
    let zones = gather_indexed(g.zones.items, zone_pick);
    assert(unsupported_along(g, q.layer, q.net, corridor).len() == 0);
    assert(pads.len() == 0 && arcs.len() == 0 && zones.len() == 0);
    assert forall|i: int|
        0 <= i < g.pads.items.len() && !(#[trigger] g.pads.items[i]).geometry_supported
            && g.pads.items[i].net_name != q.net && lies_on(
            g.pads.items[i].layers,
            q.layer,
        ) implies !is_near_route(
        g.pads.items[i],
        corridor.pad_boxes@[i],
        corridor.segment_boxes@,
    ) by {
        if is_near_route(g.pads.items[i], corridor.pad_boxes@[i], corridor.segment_boxes@) {
            let found = Unsupported::Pad(i as usize);
            assert(pad_pick(i, g.pads.items[i])[0] == found);
            lemma_gather_indexed_contains(g.pads.items, pad_pick, i, found);
        }
    }
    assert forall|i: int|
        0 <= i < g.track_arcs.items.len() && (#[trigger] g.track_arcs.items[i]).layer == q.layer
            && g.track_arcs.items[i].net_name != q.net implies !overlap(
        corridor.route_box,
        corridor.arc_boxes@[i],
    ) by {
        if overlap(corridor.route_box, corridor.arc_boxes@[i]) {
            let found = Unsupported::TrackArc(i as usize);
            assert(arc_pick(i, g.track_arcs.items[i])[0] == found);
            lemma_gather_indexed_contains(g.track_arcs.items, arc_pick, i, found);
        }
    }
    assert forall|i: int|
        0 <= i < g.zones.items.len() && (#[trigger] g.zones.items[i]).layer == q.layer
            && net_of_zone(g.zones.items[i]) != q.net implies has_outline(
        g.zones.items[i].polygons,
    ) && !is_relevant(
        g.zones.items[i].polygons,
        corridor.zones@[i]@,
        corridor.route_box,
        corridor.margin,
    ) by {
        let zone = g.zones.items[i];
        let relevant = is_relevant(
            zone.polygons,
            corridor.zones@[i]@,
            corridor.route_box,
            corridor.margin,
        );
        if relevant || !has_outline(zone.polygons) {
            let found = Unsupported::Zone { index: i as usize, relevant };
            assert(zone_pick(i, zone)[0] == found);
            lemma_gather_indexed_contains(g.zones.items, zone_pick, i, found);
        }
    }
}

} // verus!
