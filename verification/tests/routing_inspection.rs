//! Routes and vias on boards that are made up here. Distances are measured with plain
//! floating-point geometry.

use konnect::board::{
    IpcBoardEdgeGeometry, IpcGeometryClass, IpcLayer, IpcPadGeometry, IpcPolygonGeometry,
    IpcRoutingGeometry, IpcTrack, IpcTrackArc, IpcViaGeometry,
};
use konnect::clearance::{
    calculate_clearance, pad_intersects_segment_search_envelope, pad_outline, ClearanceReport,
    Measured, Obstacle, Outline, PolygonMeasures, RouteMeasures, SegmentMeasures,
};
use konnect::inspect::{select_geometry, select_track_arcs, Places, TrackEnds};
use konnect::json::{
    parse_allowed_endpoint_pads, parse_points, parse_region, AllowedEndpointPad, Json, Member,
    Region, ToolError,
};
use konnect::layers::traversed_layers;
use konnect::messages::Vector2;
use konnect::route_check::{
    board_edge_check_status, candidate_unsupported_geometry, check_route_clearance,
    parse_route_request, CorridorMeasures, EdgeCheck, Unsupported, ZoneMeasures,
};
use konnect::scalar::{Point, Scalar};
use konnect::tools::{tools, unavailable_geometry, unsupported_capabilities, ParamDefault, ParamKind};
use konnect::via_check::{
    check_via_clearance, foreign_zone_crossings, parse_via_request, ViaCheck, ViaCollision,
    ViaMeasures,
};

// Measuring.

type P = (f64, f64);

fn nm(x: f64) -> i64 {
    (x * 1_000_000.0).round() as i64
}

fn mm(x: i64) -> f64 {
    x as f64 / 1_000_000.0
}

fn v(x: f64, y: f64) -> Vector2 {
    Vector2 { x_nm: nm(x), y_nm: nm(y) }
}

fn p(v: &Vector2) -> P {
    (mm(v.x_nm), mm(v.y_nm))
}

fn s(x: f64) -> Scalar {
    Scalar { bits: x.to_bits() }
}

fn f(x: Scalar) -> f64 {
    f64::from_bits(x.bits)
}

fn point_segment_distance(p: P, a: P, b: P) -> f64 {
    let ab = (b.0 - a.0, b.1 - a.1);
    let denom = ab.0 * ab.0 + ab.1 * ab.1;
    if denom == 0.0 {
        return ((p.0 - a.0).powi(2) + (p.1 - a.1).powi(2)).sqrt();
    }
    let t = (((p.0 - a.0) * ab.0 + (p.1 - a.1) * ab.1) / denom).clamp(0.0, 1.0);
    ((p.0 - (a.0 + t * ab.0)).powi(2) + (p.1 - (a.1 + t * ab.1)).powi(2)).sqrt()
}

fn orient(a: P, b: P, c: P) -> f64 {
    (b.0 - a.0) * (c.1 - a.1) - (b.1 - a.1) * (c.0 - a.0)
}

fn on_segment(a: P, b: P, p: P) -> bool {
    let e = 1e-12;
    p.0 >= a.0.min(b.0) - e
        && p.0 <= a.0.max(b.0) + e
        && p.1 >= a.1.min(b.1) - e
        && p.1 <= a.1.max(b.1) + e
}

fn segment_distance(a: P, b: P, c: P, d: P) -> f64 {
    let o = [orient(a, b, c), orient(a, b, d), orient(c, d, a), orient(c, d, b)];
    let proper = o[0] * o[1] < 0.0 && o[2] * o[3] < 0.0;
    let touching = (o[0].abs() <= 1e-12 && on_segment(a, b, c))
        || (o[1].abs() <= 1e-12 && on_segment(a, b, d))
        || (o[2].abs() <= 1e-12 && on_segment(c, d, a))
        || (o[3].abs() <= 1e-12 && on_segment(c, d, b));
    if proper || touching {
        0.0
    } else {
        point_segment_distance(a, c, d)
            .min(point_segment_distance(b, c, d))
            .min(point_segment_distance(c, a, b))
            .min(point_segment_distance(d, a, b))
    }
}

fn segment_rect_distance(a: P, b: P, hx: f64, hy: f64) -> f64 {
    if (a.0.abs() <= hx && a.1.abs() <= hy) || (b.0.abs() <= hx && b.1.abs() <= hy) {
        return 0.0;
    }
    let corners = [(-hx, -hy), (hx, -hy), (hx, hy), (-hx, hy), (-hx, -hy)];
    let mut best = f64::INFINITY;
    for e in corners.windows(2) {
        best = best.min(segment_distance(a, b, e[0], e[1]));
    }
    best
}

fn rotate_into_local(p: P, center: P, degrees: f64) -> P {
    let (sin, cos) = (-degrees).to_radians().sin_cos();
    let (x, y) = (p.0 - center.0, p.1 - center.1);
    (x * cos - y * sin, x * sin + y * cos)
}

fn pad_segment_distance(pad: &IpcPadGeometry, a: P, b: P) -> Option<f64> {
    let outline = pad_outline(pad)?;
    let size = p(&pad.size.unwrap());
    let a = rotate_into_local(a, p(&pad.position), f(pad.rotation));
    let b = rotate_into_local(b, p(&pad.position), f(pad.rotation));
    let (hx, hy) = (size.0 / 2.0, size.1 / 2.0);
    let d = match outline {
        Outline::Circle => point_segment_distance((0.0, 0.0), a, b) - hx,
        Outline::Rectangle => segment_rect_distance(a, b, hx, hy),
        Outline::Oval => {
            let (c, d, radius) = if hx >= hy {
                ((-hx + hy, 0.0), (hx - hy, 0.0), hy)
            } else {
                ((0.0, -hy + hx), (0.0, hy - hx), hx)
            };
            segment_distance(a, b, c, d) - radius
        }
        Outline::Roundrect { ratio } => {
            let radius = f(ratio) * size.0.min(size.1);
            segment_rect_distance(a, b, (hx - radius).max(0.0), (hy - radius).max(0.0)) - radius
        }
    };
    Some(d.max(0.0))
}

fn region(x_min: f64, y_min: f64, x_max: f64, y_max: f64) -> Region {
    Region { x_min: s(x_min), y_min: s(y_min), x_max: s(x_max), y_max: s(y_max) }
}

fn bbox(points: &[P], margin: f64) -> Region {
    let (mut x0, mut y0, mut x1, mut y1) =
        (f64::INFINITY, f64::INFINITY, f64::NEG_INFINITY, f64::NEG_INFINITY);
    for &(x, y) in points {
        x0 = x0.min(x);
        y0 = y0.min(y);
        x1 = x1.max(x);
        y1 = y1.max(y);
    }
    region(x0 - margin, y0 - margin, x1 + margin, y1 + margin)
}

fn pad_box(pad: &IpcPadGeometry) -> Region {
    let size = match &pad.size {
        Some(size) => p(size),
        None => (0.0, 0.0),
    };
    let (sin, cos) = f(pad.rotation).to_radians().sin_cos();
    let ex = size.0 / 2.0 * cos.abs() + size.1 / 2.0 * sin.abs();
    let ey = size.0 / 2.0 * sin.abs() + size.1 / 2.0 * cos.abs();
    let at = p(&pad.position);
    region(at.0 - ex, at.1 - ey, at.0 + ex, at.1 + ey)
}

fn point_in_polygon(point: P, polygon: &[Vector2]) -> bool {
    if polygon.len() < 3 {
        return false;
    }
    let mut inside = false;
    let mut previous = p(&polygon[polygon.len() - 1]);
    for corner in polygon {
        let current = p(corner);
        if (current.1 > point.1) != (previous.1 > point.1)
            && point.0
                < (previous.0 - current.0) * (point.1 - current.1) / (previous.1 - current.1)
                    + current.0
        {
            inside = !inside;
        }
        previous = current;
    }
    inside
}

fn circle_from_three(a: P, b: P, c: P) -> Option<(P, f64)> {
    let d = 2.0 * (a.0 * (b.1 - c.1) + b.0 * (c.1 - a.1) + c.0 * (a.1 - b.1));
    if d.abs() < 1e-12 {
        return None;
    }
    let aa = a.0 * a.0 + a.1 * a.1;
    let bb = b.0 * b.0 + b.1 * b.1;
    let cc = c.0 * c.0 + c.1 * c.1;
    let center = (
        (aa * (b.1 - c.1) + bb * (c.1 - a.1) + cc * (a.1 - b.1)) / d,
        (aa * (c.0 - b.0) + bb * (a.0 - c.0) + cc * (b.0 - a.0)) / d,
    );
    Some((center, ((a.0 - center.0).powi(2) + (a.1 - center.1).powi(2)).sqrt()))
}

fn angle_on_arc(angle: f64, start: f64, mid: f64, end: f64) -> bool {
    let norm = |x: f64| x.rem_euclid(std::f64::consts::TAU);
    let ccw = |a: f64, b: f64| norm(b - a);
    let (s, m, e, x) = (norm(start), norm(mid), norm(end), norm(angle));
    if ccw(s, m) <= ccw(s, e) + 1e-10 {
        ccw(s, x) <= ccw(s, e) + 1e-10
    } else {
        ccw(e, x) <= ccw(e, s) + 1e-10
    }
}

fn segment_arc_distance(a: P, b: P, start: P, mid: P, end: P) -> f64 {
    let Some((center, r)) = circle_from_three(start, mid, end) else {
        return segment_distance(a, b, start, end);
    };
    let angle = |p: P| (p.1 - center.1).atan2(p.0 - center.0);
    let faces = |p: P| angle_on_arc(angle(p), angle(start), angle(mid), angle(end));
    let ab = (b.0 - a.0, b.1 - a.1);
    let along = |t: f64| (a.0 + t * ab.0, a.1 + t * ab.1);
    let den = ab.0 * ab.0 + ab.1 * ab.1;
    let mut near = vec![a, b];
    if den > 0.0 {
        // The point of the line that is nearest to the center, and those on the circle.
        let t = ((center.0 - a.0) * ab.0 + (center.1 - a.1) * ab.1) / den;
        near.push(along(t.clamp(0.0, 1.0)));
        let foot = along(t);
        let square = r * r - (foot.0 - center.0).powi(2) - (foot.1 - center.1).powi(2);
        if square >= 0.0 {
            let half = (square / den).sqrt();
            for s in [t - half, t + half] {
                if (0.0..=1.0).contains(&s) && faces(along(s)) {
                    return 0.0;
                }
            }
        }
    }
    let mut best = point_segment_distance(start, a, b).min(point_segment_distance(end, a, b));
    for p in near {
        if faces(p) {
            let d = ((p.0 - center.0).powi(2) + (p.1 - center.1).powi(2)).sqrt();
            best = best.min((d - r).abs());
        }
    }
    best
}

fn edge_distance(edge: &IpcBoardEdgeGeometry, a: P, b: P) -> f64 {
    match edge {
        IpcBoardEdgeGeometry::Line { start, end } => segment_distance(a, b, p(start), p(end)),
        IpcBoardEdgeGeometry::Arc { start, mid, end } => {
            segment_arc_distance(a, b, p(start), p(mid), p(end))
        }
    }
}

fn via_radius(via: &IpcViaGeometry) -> f64 {
    match &via.size {
        Some(size) => mm(size.x_nm).max(mm(size.y_nm)) / 2.0,
        None => 0.0,
    }
}

fn measure_route(g: &IpcRoutingGeometry, points: &[P], width: f64, clearance: f64) -> RouteMeasures {
    let mut segments = Vec::new();
    for pair in points.windows(2) {
        let (a, b) = (pair[0], pair[1]);
        segments.push(SegmentMeasures {
            envelope: bbox(&[a, b], width / 2.0 + clearance),
            tracks: g
                .tracks
                .items
                .iter()
                .map(|t| {
                    s(segment_distance(a, b, p(&t.start), p(&t.end))
                        - (width + mm(t.width_nm)) / 2.0)
                })
                .collect(),
            pads: g
                .pads
                .items
                .iter()
                .map(|q| s(pad_segment_distance(q, a, b).unwrap_or(f64::NAN) - width / 2.0))
                .collect(),
            vias: g
                .vias
                .items
                .iter()
                .map(|q| {
                    s(point_segment_distance(p(&q.position), a, b) - width / 2.0 - via_radius(q))
                })
                .collect(),
            edges: g
                .board_edges
                .items
                .iter()
                .map(|e| s(edge_distance(e, a, b) - width / 2.0))
                .collect(),
            courtyards: g
                .courtyards
                .items
                .iter()
                .map(|c| {
                    c.polygons
                        .iter()
                        .map(|poly| PolygonMeasures {
                            edge_gaps: poly
                                .windows(2)
                                .map(|e| {
                                    s(segment_distance(a, b, p(&e[0]), p(&e[1])) - width / 2.0)
                                })
                                .collect(),
                            end_inside: point_in_polygon(a, poly) || point_in_polygon(b, poly),
                        })
                        .collect()
                })
                .collect(),
        });
    }
    let first = points[0];
    let last = points[points.len() - 1];
    let end = |q: &IpcPadGeometry, at: P| s(pad_segment_distance(q, at, at).unwrap_or(f64::NAN));
    RouteMeasures {
        segments,
        pad_boxes: g.pads.items.iter().map(pad_box).collect(),
        start_distances: g.pads.items.iter().map(|q| end(q, first)).collect(),
        end_distances: g.pads.items.iter().map(|q| end(q, last)).collect(),
    }
}

fn measure_corridor(
    g: &IpcRoutingGeometry,
    points: &[P],
    width: f64,
    clearance: f64,
) -> CorridorMeasures {
    let margin = width / 2.0 + clearance;
    CorridorMeasures {
        margin: s(margin),
        route_box: bbox(points, margin),
        segment_boxes: points.windows(2).map(|pair| bbox(pair, margin)).collect(),
        pad_boxes: g.pads.items.iter().map(pad_box).collect(),
        arc_boxes: g
            .track_arcs
            .items
            .iter()
            .map(|a| bbox(&[p(&a.start), p(&a.mid), p(&a.end)], mm(a.width_nm) / 2.0))
            .collect(),
        zones: g
            .zones
            .items
            .iter()
            .map(|z| {
                z.polygons
                    .iter()
                    .map(|poly| {
                        let corners: Vec<P> = poly.iter().map(p).collect();
                        let mut edge_distances = Vec::new();
                        for pair in points.windows(2) {
                            for k in 0..corners.len() {
                                let next = corners[(k + 1) % corners.len()];
                                edge_distances
                                    .push(s(segment_distance(pair[0], pair[1], corners[k], next)));
                            }
                        }
                        ZoneMeasures {
                            bounds: bbox(&corners, 0.0),
                            points_inside: points
                                .iter()
                                .map(|q| point_in_polygon(*q, poly))
                                .collect(),
                            edge_distances,
                        }
                    })
                    .collect()
            })
            .collect(),
    }
}

fn measure_via(g: &IpcRoutingGeometry, at: P, diameter: f64, clearance: f64) -> ViaMeasures {
    let radius = diameter / 2.0;
    ViaMeasures {
        antipad_radius: s(radius + clearance),
        pads: g
            .pads
            .items
            .iter()
            .map(|q| s(pad_segment_distance(q, at, at).unwrap_or(f64::NAN) - radius))
            .collect(),
        tracks: g
            .tracks
            .items
            .iter()
            .map(|t| {
                s(point_segment_distance(at, p(&t.start), p(&t.end))
                    - radius
                    - mm(t.width_nm) / 2.0)
            })
            .collect(),
        vias: g
            .vias
            .items
            .iter()
            .map(|q| {
                let c = p(&q.position);
                s(((at.0 - c.0).powi(2) + (at.1 - c.1).powi(2)).sqrt() - radius - via_radius(q))
            })
            .collect(),
        edges: g.board_edges.items.iter().map(|e| s(edge_distance(e, at, at) - radius)).collect(),
        zones: g
            .zones
            .items
            .iter()
            .map(|z| z.polygons.iter().map(|poly| point_in_polygon(at, poly)).collect())
            .collect(),
    }
}

// Boards.

fn pad(reference: &str, number: &str, net: &str, x: f64, y: f64) -> IpcPadGeometry {
    IpcPadGeometry {
        reference: reference.into(),
        number: number.into(),
        position: v(x, y),
        size: Some(v(0.6, 0.6)),
        shape: Some("circle".into()),
        rotation: s(0.0),
        corner_rounding_ratio: None,
        geometry_supported: true,
        geometry_reason: None,
        layers: vec!["F.Cu".into()],
        net_name: net.into(),
        net_id: 1,
    }
}

fn layer(name: &str, id: i32) -> IpcLayer {
    IpcLayer { name: name.into(), id, kind: "copper".into() }
}

fn empty_geometry() -> IpcRoutingGeometry {
    IpcRoutingGeometry {
        layers: IpcGeometryClass::available(vec![
            layer("F.Cu", 0),
            layer("In1.Cu", 1),
            layer("In2.Cu", 2),
            layer("B.Cu", 31),
        ]),
        board_extents: IpcGeometryClass::unavailable("No bounding box returned from KiCAD"),
        footprints: IpcGeometryClass::available(vec![]),
        pads: IpcGeometryClass::available(vec![]),
        tracks: IpcGeometryClass::available(vec![]),
        track_arcs: IpcGeometryClass::available(vec![]),
        vias: IpcGeometryClass::available(vec![]),
        courtyards: IpcGeometryClass::available(vec![]),
        zones: IpcGeometryClass::available(vec![]),
        board_edges: IpcGeometryClass::available(vec![]),
    }
}

fn track(net: &str, width: f64, start: P, end: P) -> IpcTrack {
    IpcTrack {
        kiid: String::new(),
        net_name: net.into(),
        layer: "F.Cu".into(),
        width_nm: nm(width),
        start: v(start.0, start.1),
        end: v(end.0, end.1),
    }
}

fn geometry_without_bounds() -> IpcRoutingGeometry {
    let mut geometry = empty_geometry();
    geometry.tracks = IpcGeometryClass::available(vec![track("GND", 0.25, (0.0, 1.0), (2.0, 1.0))]);
    geometry
}

fn allowed(reference: &str, pad: &str) -> Vec<AllowedEndpointPad> {
    vec![AllowedEndpointPad { reference: reference.into(), pad: pad.into() }]
}

fn report(
    g: &IpcRoutingGeometry,
    points: &[P],
    layer: &str,
    net: &str,
    allowed: &Vec<AllowedEndpointPad>,
) -> ClearanceReport {
    let measures = measure_route(g, points, 0.2, 0.2);
    calculate_clearance(g, layer, net, s(0.2), allowed, &measures)
}

fn unsupported(g: &IpcRoutingGeometry, points: &[P], layer: &str) -> Vec<Unsupported> {
    let corridor = measure_corridor(g, points, 0.2, 0.2);
    candidate_unsupported_geometry(g, layer, "SIGNAL", &corridor)
}

fn route_safe(g: &IpcRoutingGeometry, points: &[P], layer: &str) -> bool {
    let measures = measure_route(g, points, 0.2, 0.2);
    let corridor = measure_corridor(g, points, 0.2, 0.2);
    let check = check_route_clearance(g, layer, "SIGNAL", s(0.2), &vec![], &measures, &corridor);
    let found = report(g, points, layer, "SIGNAL", &vec![]);
    let safe = found.conflicts.is_empty()
        && g.layers.available
        && g.layers.items.iter().any(|item| item.name == layer)
        && g.tracks.available
        && g.pads.available
        && g.vias.available
        && g.board_edges.available
        && unsupported(g, points, layer).is_empty();
    assert_eq!(check.globally_safe, safe);
    safe
}

fn square(name: &str, layer: &str, net: Option<&str>, corners: &[P]) -> IpcPolygonGeometry {
    IpcPolygonGeometry {
        object_type: name.into(),
        reference: None,
        layer: layer.into(),
        net_name: net.map(String::from),
        net_id: net.map(|_| 1),
        polygons: vec![corners.iter().map(|c| v(c.0, c.1)).collect()],
    }
}

fn plane(layer: &str) -> IpcPolygonGeometry {
    square(
        "zone_outline",
        layer,
        Some("GND"),
        &[(0.0, 0.0), (0.0, 10.0), (10.0, 10.0), (10.0, 0.0)],
    )
}

fn edge(x1: f64, y1: f64, x2: f64, y2: f64) -> IpcBoardEdgeGeometry {
    IpcBoardEdgeGeometry::Line { start: v(x1, y1), end: v(x2, y2) }
}

fn via(net: &str, x: f64, y: f64, size: Option<f64>, layers: &[&str]) -> IpcViaGeometry {
    IpcViaGeometry {
        kiid: String::new(),
        position: v(x, y),
        size: size.map(|d| v(d, d)),
        drill: Some(v(0.4, 0.4)),
        layers: layers.iter().map(|l| String::from(*l)).collect(),
        net_name: net.into(),
        net_id: 2,
    }
}

fn hits_pad(g: &IpcRoutingGeometry, found: &ClearanceReport, reference: &str, number: &str) -> bool {
    found.conflicts.iter().any(|c| match c.object {
        Obstacle::Pad(i) => {
            g.pads.items[i].reference == reference && g.pads.items[i].number == number
        }
        _ => false,
    })
}

// Routes.

#[test]
fn clean_route_is_globally_safe() {
    assert!(route_safe(&empty_geometry(), &[(1.0, 1.0), (3.0, 1.0)], "F.Cu"));
}

#[test]
fn unsupported_custom_pad_is_capability_only_when_far_away() {
    let mut geometry = empty_geometry();
    let mut custom = pad("U1", "1", "OTHER", 20.0, 20.0);
    custom.shape = Some("PssCustom".into());
    custom.geometry_supported = false;
    custom.geometry_reason = Some("unsupported IPC pad shape: PssCustom".into());
    geometry.pads.items.push(custom);
    assert!(route_safe(&geometry, &[(1.0, 1.0), (3.0, 1.0)], "F.Cu"));
    assert!(!geometry.pads.items[0].geometry_supported);
}

#[test]
fn unsupported_custom_pad_in_corridor_fails_closed() {
    let mut geometry = empty_geometry();
    let mut custom = pad("U1", "1", "OTHER", 2.0, 1.0);
    custom.shape = Some("PssCustom".into());
    custom.geometry_supported = false;
    geometry.pads.items.push(custom);
    assert!(!route_safe(&geometry, &[(1.0, 1.0), (3.0, 1.0)], "F.Cu"));
    let found = unsupported(&geometry, &[(1.0, 1.0), (3.0, 1.0)], "F.Cu");
    assert_eq!(found.len(), 1);
    assert_eq!(found[0], Unsupported::Pad(0));
    assert_eq!(found[0].reason(&geometry), "unsupported pad geometry");
}

#[test]
fn unsupported_custom_pad_at_a_bend_fails_closed() {
    let mut geometry = empty_geometry();
    let mut custom = pad("U1", "1", "OTHER", 5.0, 5.0);
    custom.shape = Some("PssCustom".into());
    custom.geometry_supported = false;
    geometry.pads.items.push(custom);
    let route = [(0.0, 0.0), (5.0, 5.0), (10.0, 0.0)];
    assert_eq!(unsupported(&geometry, &route, "F.Cu"), vec![Unsupported::Pad(0)]);
    assert!(!route_safe(&geometry, &route, "F.Cu"));
}

fn track_arc(net: &str, layer: &str, x: f64, y: f64) -> IpcTrackArc {
    IpcTrackArc {
        net_name: net.into(),
        layer: layer.into(),
        width_nm: nm(0.2),
        start: v(x, y),
        mid: v(x + 0.5, y + 0.5),
        end: v(x + 1.0, y),
    }
}

#[test]
fn unrelated_track_arc_does_not_fail_route() {
    let mut geometry = empty_geometry();
    geometry.track_arcs.items.push(track_arc("OTHER", "F.Cu", 20.0, 20.0));
    assert!(route_safe(&geometry, &[(1.0, 1.0), (3.0, 1.0)], "F.Cu"));
}

#[test]
fn intersecting_track_arc_fails_closed() {
    let mut geometry = empty_geometry();
    geometry.track_arcs.items.push(track_arc("OTHER", "F.Cu", 1.5, 1.0));
    assert!(!route_safe(&geometry, &[(1.0, 1.0), (3.0, 1.0)], "F.Cu"));
}

#[test]
fn foreign_zone_on_unrelated_layer_does_not_fail_route() {
    let mut geometry = empty_geometry();
    geometry.zones.items.push(plane("In1.Cu"));
    assert!(route_safe(&geometry, &[(1.0, 1.0), (3.0, 1.0)], "F.Cu"));
}

#[test]
fn relevant_foreign_zone_fails_closed() {
    let mut geometry = empty_geometry();
    geometry.zones.items.push(plane("F.Cu"));
    assert!(!route_safe(&geometry, &[(1.0, 1.0), (3.0, 1.0)], "F.Cu"));
    let found = unsupported(&geometry, &[(1.0, 1.0), (3.0, 1.0)], "F.Cu");
    assert_eq!(found, vec![Unsupported::Zone { index: 0, relevant: true }]);
}

#[test]
fn ordinary_courtyard_intersection_is_informational() {
    let mut geometry = empty_geometry();
    let mut courtyard =
        square("courtyard", "F.CrtYd", None, &[(0.0, 0.0), (0.0, 2.0), (3.0, 2.0), (3.0, 0.0)]);
    courtyard.reference = Some("U1".into());
    geometry.courtyards.items.push(courtyard);
    let found = report(&geometry, &[(1.0, 1.0), (2.0, 1.0)], "F.Cu", "SIGNAL", &vec![]);
    assert!(!found.courtyard_intersections.is_empty());
    assert!(route_safe(&geometry, &[(1.0, 1.0), (2.0, 1.0)], "F.Cu"));
}

#[test]
fn supported_foreign_track_and_pad_collisions_fail() {
    let mut track_geometry = empty_geometry();
    track_geometry.tracks.items.push(track("OTHER", 0.2, (1.0, 1.0), (3.0, 1.0)));
    assert!(!route_safe(&track_geometry, &[(1.0, 1.0), (3.0, 1.0)], "F.Cu"));

    let mut pad_geometry = empty_geometry();
    pad_geometry.pads.items.push(pad("R1", "1", "OTHER", 2.0, 1.0));
    assert!(!route_safe(&pad_geometry, &[(1.0, 1.0), (3.0, 1.0)], "F.Cu"));
}

#[test]
fn exact_edge_clearance_passes_and_violation_fails() {
    let mut geometry = empty_geometry();
    geometry.board_edges.items.push(edge(0.0, 0.0, 10.0, 0.0));
    assert!(route_safe(&geometry, &[(1.0, 1.0), (3.0, 1.0)], "F.Cu"));
    assert!(!route_safe(&geometry, &[(1.0, 0.1), (3.0, 0.1)], "F.Cu"));
}

#[test]
fn endpoint_pad_exemption_does_not_exempt_neighbor() {
    let mut geometry = empty_geometry();
    geometry.pads.items.push(pad("J1", "1", "SIGNAL", 1.0, 1.0));
    geometry.pads.items.push(pad("R1", "1", "OTHER", 1.5, 1.0));
    let found =
        report(&geometry, &[(1.0, 1.0), (3.0, 1.0)], "F.Cu", "SIGNAL", &allowed("J1", "1"));
    assert!(hits_pad(&geometry, &found, "R1", "1"));
    assert!(!hits_pad(&geometry, &found, "J1", "1"));
}

#[test]
fn declared_start_endpoint_pad_is_excluded_but_neighbor_is_checked() {
    let mut geometry = empty_geometry();
    geometry.pads.items =
        vec![pad("U1", "1", "PWRKEY", 0.0, 0.0), pad("U1", "2", "GND", 0.0, 0.55)];
    let found =
        report(&geometry, &[(0.0, 0.0), (1.0, 0.0)], "F.Cu", "ROUTE_NET", &allowed("U1", "1"));
    assert!(!hits_pad(&geometry, &found, "U1", "1"));
    assert!(hits_pad(&geometry, &found, "U1", "2"));
}

#[test]
fn declared_destination_endpoint_pad_is_excluded() {
    let mut geometry = empty_geometry();
    geometry.pads.items = vec![pad("Q2", "3", "PWRKEY", 1.0, 0.0)];
    let found =
        report(&geometry, &[(0.0, 0.0), (1.0, 0.0)], "F.Cu", "ROUTE_NET", &allowed("Q2", "3"));
    assert!(found.conflicts.is_empty());
}

#[test]
fn allowed_pad_crossed_by_middle_segment_still_collides() {
    let mut geometry = empty_geometry();
    geometry.pads.items = vec![pad("U1", "1", "PWRKEY", 1.0, 0.0)];
    let found = report(
        &geometry,
        &[(-1.0, 1.0), (0.0, 1.0), (2.0, 0.0), (3.0, 0.0)],
        "F.Cu",
        "ROUTE_NET",
        &allowed("U1", "1"),
    );
    assert!(hits_pad(&geometry, &found, "U1", "1"));
}

#[test]
fn courtyard_crossing_is_informational_only() {
    let mut geometry = empty_geometry();
    let mut courtyard = square("courtyard", "F.CrtYd", None, &[(0.5, -1.0), (0.5, 1.0)]);
    courtyard.reference = Some("U10".into());
    geometry.courtyards.items = vec![courtyard];
    let found = report(&geometry, &[(0.0, 0.0), (1.0, 0.0)], "F.Cu", "SIGNAL", &vec![]);
    assert!(found.conflicts.is_empty());
    assert_eq!(found.courtyard_intersections.len(), 1);
}

#[test]
fn foreign_track_crossing_still_collides() {
    let geometry = geometry_without_bounds();
    let found = report(&geometry, &[(1.0, 0.0), (1.0, 2.0)], "F.Cu", "MODEM_RESET_N", &vec![]);
    assert!(found.conflicts.iter().any(|c| matches!(c.object, Obstacle::Track(_))));
}

#[test]
fn foreign_via_still_collides() {
    let mut geometry = empty_geometry();
    geometry.vias.items = vec![via("GND", 0.5, 0.0, Some(0.8), &["F.Cu", "B.Cu"])];
    let found = report(&geometry, &[(0.0, 0.0), (1.0, 0.0)], "F.Cu", "SIGNAL", &vec![]);
    assert!(found.conflicts.iter().any(|c| matches!(c.object, Obstacle::Via(_))));
}

#[test]
fn distant_collinear_pad_cannot_collide_with_short_segment() {
    let mut geometry = empty_geometry();
    geometry.pads.items = vec![pad("U1", "51", "VBAT_ADC_SENSE", 30.0, 12.1)];
    let found = report(&geometry, &[(6.0, 12.1), (5.0, 12.1)], "F.Cu", "PWRKEY", &vec![]);
    assert!(found.conflicts.is_empty());
    assert!(!pad_intersects_segment_search_envelope(
        &geometry.pads.items[0],
        pad_box(&geometry.pads.items[0]),
        bbox(&[(6.0, 12.1), (5.0, 12.1)], 0.3)
    ));
}

#[test]
fn rotated_distant_pad_is_rejected_by_spatial_guard() {
    let mut distant = pad("U1", "36", "OTHER", 30.0, 27.1);
    distant.shape = Some("PssRectangle".into());
    distant.size = Some(v(2.0, 0.6));
    distant.rotation = s(90.0);
    assert!(!pad_intersects_segment_search_envelope(
        &distant,
        pad_box(&distant),
        bbox(&[(6.0, 27.1), (5.0, 27.1)], 0.3)
    ));
    assert!(pad_segment_distance(&distant, (6.0, 27.1), (5.0, 27.1)).unwrap() > 20.0);
}

#[test]
fn true_nearby_pad_collision_still_fails() {
    let mut geometry = empty_geometry();
    geometry.pads.items = vec![pad("R2", "2", "GND", 1.2, 0.4)];
    let found = report(&geometry, &[(0.0, 0.0), (2.0, 0.0)], "F.Cu", "WDT_DELAY", &vec![]);
    assert!(hits_pad(&geometry, &found, "R2", "2"));
}

#[test]
fn missing_board_bounds_preserves_routing_geometry() {
    let geometry = geometry_without_bounds();
    assert!(!geometry.board_extents.available);
    assert!(geometry.tracks.available);
    assert_eq!(geometry.tracks.items.len(), 1);
}

#[test]
fn trace_collision_is_detected_without_board_bounds() {
    let geometry = geometry_without_bounds();
    let measures = measure_route(&geometry, &[(1.0, 0.0), (1.0, 2.0)], 0.25, 0.2);
    let found = calculate_clearance(&geometry, "F.Cu", "SIGNAL", s(0.2), &vec![], &measures);
    let gap = found.conflicts[0].gap;
    assert!(f(gap) < 0.2);
}

#[test]
fn board_edge_check_is_unsupported_when_ipc_edges_unavailable() {
    let mut geometry = geometry_without_bounds();
    geometry.board_edges = IpcGeometryClass::unavailable("IPC Edge.Cuts query failed");
    match board_edge_check_status(&geometry) {
        EdgeCheck::Unsupported { reason } => assert!(reason.contains("Edge.Cuts")),
        EdgeCheck::Supported { .. } => panic!("the edge cannot be checked"),
    }
}

#[test]
fn unavailable_geometry_differs_from_valid_empty_geometry() {
    let unavailable: IpcGeometryClass<Vec<IpcTrack>> =
        IpcGeometryClass::unavailable("IPC query failed");
    let empty: IpcGeometryClass<Vec<IpcTrack>> = IpcGeometryClass::available(vec![]);
    assert!(!unavailable.available);
    assert!(unavailable.items.is_empty());
    assert_eq!(unavailable.reason.as_deref(), Some("IPC query failed"));
    assert!(empty.available);
    assert!(empty.items.is_empty());
    assert!(empty.reason.is_none());
}

#[test]
fn rotated_rectangle_and_oval_use_exact_shape() {
    let mut q = pad("U1", "1", "GND", 0.0, 0.0);
    q.shape = Some("PssRectangle".into());
    q.size = Some(v(2.0, 0.4));
    q.rotation = s(90.0);
    assert_eq!(pad_outline(&q), Some(Outline::Rectangle));
    assert_eq!(pad_segment_distance(&q, (0.0, 0.8), (1.0, 0.8)), Some(0.0));
    assert!(pad_segment_distance(&q, (0.8, -1.0), (0.8, 1.0)).unwrap() > 0.5);
    q.shape = Some("PssOval".into());
    q.rotation = s(0.0);
    assert_eq!(pad_outline(&q), Some(Outline::Oval));
    assert_eq!(pad_segment_distance(&q, (-2.0, 0.0), (2.0, 0.0)), Some(0.0));
    assert!((pad_segment_distance(&q, (-2.0, 0.5), (2.0, 0.5)).unwrap() - 0.3).abs() < 1e-9);
}

#[test]
fn rounded_rectangle_and_custom_availability() {
    let mut q = pad("U1", "1", "GND", 0.0, 0.0);
    q.shape = Some("PssRoundrect".into());
    q.size = Some(v(2.0, 1.0));
    q.corner_rounding_ratio = Some(s(0.25));
    assert_eq!(pad_outline(&q), Some(Outline::Roundrect { ratio: s(0.25) }));
    assert_eq!(pad_segment_distance(&q, (-2.0, 0.0), (2.0, 0.0)), Some(0.0));
    q.shape = Some("PssCustom".into());
    q.geometry_supported = false;
    q.geometry_reason = Some("unsupported IPC pad shape: PssCustom".into());
    assert_eq!(pad_segment_distance(&q, (0.0, 0.0), (1.0, 0.0)), None);
}

#[test]
fn via_layer_traversal_is_ordered() {
    let geometry = empty_geometry();
    assert_eq!(
        traversed_layers(&geometry.layers.items, "F.Cu", "In2.Cu").unwrap(),
        vec!["F.Cu", "In1.Cu", "In2.Cu"]
    );
    assert_eq!(
        traversed_layers(&geometry.layers.items, "In2.Cu", "In1.Cu").unwrap(),
        vec!["In1.Cu", "In2.Cu"]
    );
    assert_eq!(
        traversed_layers(&geometry.layers.items, "F.Cu", "B.Cu").unwrap(),
        vec!["F.Cu", "In1.Cu", "In2.Cu", "B.Cu"]
    );
    assert!(traversed_layers(&geometry.layers.items, "F.Cu", "In3.Cu").is_none());
}

#[test]
fn layers_may_be_listed_in_any_order() {
    let listed = vec![
        layer("B.Cu", 31),
        layer("In2.Cu", 2),
        layer("F.SilkS", 37),
        layer("F.Cu", 0),
        layer("In1.Cu", 1),
    ];
    assert_eq!(
        traversed_layers(&listed, "F.Cu", "B.Cu").unwrap(),
        vec!["F.Cu", "In1.Cu", "In2.Cu", "B.Cu"]
    );
    let one_place = |a: &str, b: &str| vec![layer(a, 1), layer(b, 2)];
    assert_eq!(
        traversed_layers(&one_place("F.Cu", "In0.Cu"), "F.Cu", "In0.Cu").unwrap(),
        vec!["F.Cu", "In0.Cu"]
    );
    assert_eq!(
        traversed_layers(&one_place("In0.Cu", "F.Cu"), "F.Cu", "In0.Cu").unwrap(),
        vec!["In0.Cu", "F.Cu"]
    );
}

#[test]
fn foreign_ground_plane_crossing_supports_conservative_antipad() {
    let mut geometry = empty_geometry();
    geometry.zones.items = vec![plane("In1.Cu")];
    let layers = traversed_layers(&geometry.layers.items, "F.Cu", "In2.Cu").unwrap();
    let measures = measure_via(&geometry, (5.0, 5.0), 0.6, 0.2);
    let (crossings, supported) = foreign_zone_crossings(&geometry, &layers, "SIGNAL", &measures);
    assert!(supported);
    assert_eq!(crossings.len(), 1);
    assert_eq!(layers[crossings[0].layer], "In1.Cu");
    assert_eq!(geometry.zones.items[crossings[0].zone].net_name.as_deref(), Some("GND"));
    assert!(crossings[0].antipad_required);
    assert_eq!(crossings[0].required_antipad_radius, s(0.5));
    assert!(crossings[0].supported);
}

#[test]
fn board_edge_failure_still_fails() {
    let mut geometry = empty_geometry();
    geometry.board_edges.items = vec![edge(0.0, 0.0, 10.0, 0.0)];
    let found = report(&geometry, &[(1.0, 0.1), (2.0, 0.1)], "F.Cu", "SIGNAL", &vec![]);
    assert!(found.conflicts.iter().any(|c| matches!(c.object, Obstacle::BoardEdge(_))));
}

#[test]
fn arc_edges_are_kept_clear_of() {
    let mut geometry = empty_geometry();
    geometry.board_edges.items = vec![IpcBoardEdgeGeometry::Arc {
        start: v(1.0, 0.0),
        mid: v(0.0, 1.0),
        end: v(-1.0, 0.0),
    }];
    let near = report(&geometry, &[(-0.1, 1.1), (0.1, 1.1)], "F.Cu", "SIGNAL", &vec![]);
    assert_eq!(near.conflicts.len(), 1);
    let far = report(&geometry, &[(-0.1, 2.0), (0.1, 2.0)], "F.Cu", "SIGNAL", &vec![]);
    assert!(far.conflicts.is_empty());
    assert!((f(far.minimum) - 0.9).abs() < 1e-9);
    let across = report(&geometry, &[(0.0, 0.0), (0.0, 3.0)], "F.Cu", "SIGNAL", &vec![]);
    assert!((f(across.minimum) + 0.1).abs() < 1e-9);
}

#[test]
fn a_greater_clearance_finds_no_less() {
    let mut geometry = empty_geometry();
    geometry.tracks.items = vec![
        track("OTHER", 0.2, (0.0, 0.3), (5.0, 0.3)),
        track("OTHER", 0.2, (0.0, 0.6), (5.0, 0.6)),
    ];
    let measures = measure_route(&geometry, &[(0.0, 0.0), (5.0, 0.0)], 0.2, 0.5);
    let found = |clearance: f64| {
        calculate_clearance(&geometry, "F.Cu", "SIGNAL", s(clearance), &vec![], &measures).conflicts
    };
    assert_eq!((found(0.05).len(), found(0.2).len(), found(0.5).len()), (0, 1, 2));
    assert!(found(0.5).contains(&found(0.2)[0]));
}

#[test]
fn a_wider_search_loses_nothing() {
    let mut geometry = empty_geometry();
    geometry.pads.items =
        vec![pad("R1", "1", "OTHER", 2.5, 0.5), pad("R2", "1", "OTHER", 2.5, 1.2)];
    geometry.courtyards.items = vec![square(
        "courtyard",
        "F.CrtYd",
        None,
        &[(1.0, 1.0), (1.0, 2.0), (2.0, 2.0), (2.0, 1.0)],
    )];
    let found = |clearance: f64| {
        let measures = measure_route(&geometry, &[(0.0, 0.0), (5.0, 0.0)], 0.2, clearance);
        calculate_clearance(&geometry, "F.Cu", "SIGNAL", s(clearance), &vec![], &measures)
    };
    let (lesser, greater) = (found(0.2), found(2.0));
    let pads = |report: &ClearanceReport| -> Vec<Obstacle> {
        report.conflicts.iter().map(|c| c.object).collect()
    };
    assert_eq!(pads(&lesser), vec![Obstacle::Pad(0)]);
    assert_eq!(pads(&greater), vec![Obstacle::Pad(0), Obstacle::Pad(1)]);
    assert!(greater.conflicts.contains(&lesser.conflicts[0]));
    assert!(lesser.courtyard_intersections.is_empty());
    assert!(!greater.courtyard_intersections.is_empty());
    assert!(f(greater.minimum) <= f(lesser.minimum));
}

// What a report promises.

#[test]
fn same_net_objects_never_collide() {
    let mut geometry = empty_geometry();
    geometry.tracks.items.push(track("SIGNAL", 0.2, (1.0, 1.0), (3.0, 1.0)));
    geometry.pads.items.push(pad("R1", "1", "SIGNAL", 2.0, 1.0));
    geometry.vias.items.push(via("SIGNAL", 2.0, 1.0, Some(0.8), &["F.Cu"]));
    let found = report(&geometry, &[(1.0, 1.0), (3.0, 1.0)], "F.Cu", "SIGNAL", &vec![]);
    assert!(found.conflicts.is_empty());
    assert_eq!(f(found.minimum), f64::INFINITY);
}

#[test]
fn conflicts_come_segment_by_segment_and_kind_by_kind() {
    let mut geometry = empty_geometry();
    geometry.tracks.items.push(track("OTHER", 0.2, (0.0, 0.0), (2.0, 0.0)));
    geometry.pads.items.push(pad("R1", "1", "OTHER", 1.0, 0.0));
    geometry.vias.items.push(via("OTHER", 1.0, 0.0, None, &["B.Cu"]));
    geometry.board_edges.items.push(edge(0.0, 0.05, 2.0, 0.05));
    let found =
        report(&geometry, &[(0.0, 0.0), (1.0, 0.0), (2.0, 0.0)], "F.Cu", "SIGNAL", &vec![]);
    let objects: Vec<Obstacle> = found.conflicts.iter().map(|c| c.object).collect();
    let one =
        [Obstacle::Track(0), Obstacle::Pad(0), Obstacle::Via(0), Obstacle::BoardEdge(0)];
    assert_eq!(objects, [one, one].concat());
    for conflict in &found.conflicts {
        assert!(f(found.minimum) <= f(conflict.gap));
    }
}

#[test]
fn a_gap_equal_to_the_clearance_is_enough() {
    let mut geometry = empty_geometry();
    geometry.tracks.items.push(track("OTHER", 0.5, (0.0, 1.0), (2.0, 1.0)));
    let measures = measure_route(&geometry, &[(0.0, 0.0), (2.0, 0.0)], 0.5, 0.5);
    let exact = calculate_clearance(&geometry, "F.Cu", "SIGNAL", s(0.5), &vec![], &measures);
    assert!(exact.conflicts.is_empty());
    assert_eq!(exact.minimum, s(0.5));
    let more = calculate_clearance(&geometry, "F.Cu", "SIGNAL", s(0.5625), &vec![], &measures);
    assert_eq!(more.conflicts, vec![Measured { object: Obstacle::Track(0), gap: s(0.5) }]);
}

#[test]
fn courtyards_go_by_the_side_of_the_route() {
    let mut geometry = empty_geometry();
    geometry.courtyards.items =
        vec![square("courtyard", "B.CrtYd", None, &[(0.5, -1.0), (0.5, 1.0)])];
    let front = report(&geometry, &[(0.0, 0.0), (1.0, 0.0)], "F.Cu", "SIGNAL", &vec![]);
    assert!(front.courtyard_intersections.is_empty());
    let back = report(&geometry, &[(0.0, 0.0), (1.0, 0.0)], "B.Cu", "SIGNAL", &vec![]);
    assert_eq!(back.courtyard_intersections.len(), 1);
    assert!(!back.courtyard_intersections[0].inside);
}

#[test]
fn a_route_inside_a_courtyard_is_noted() {
    let mut geometry = empty_geometry();
    geometry.courtyards.items = vec![square(
        "courtyard",
        "F.CrtYd",
        None,
        &[(-5.0, -5.0), (-5.0, 5.0), (5.0, 5.0), (5.0, -5.0)],
    )];
    let found = report(&geometry, &[(0.0, 0.0), (1.0, 0.0)], "F.Cu", "SIGNAL", &vec![]);
    assert_eq!(found.courtyard_intersections.len(), 1);
    assert!(found.courtyard_intersections[0].inside);
    assert_eq!(found.courtyard_intersections[0].gap, s(0.0));
}

#[test]
fn every_missing_class_makes_a_route_unsafe() {
    let points = [(1.0, 1.0), (3.0, 1.0)];
    let mut g = empty_geometry();
    g.layers = IpcGeometryClass::unavailable("no layers");
    assert!(!route_safe(&g, &points, "F.Cu"));
    let mut g = empty_geometry();
    g.tracks = IpcGeometryClass::unavailable("no tracks");
    assert!(!route_safe(&g, &points, "F.Cu"));
    let mut g = empty_geometry();
    g.pads = IpcGeometryClass::unavailable("no pads");
    assert!(!route_safe(&g, &points, "F.Cu"));
    let mut g = empty_geometry();
    g.vias = IpcGeometryClass::unavailable("no vias");
    assert!(!route_safe(&g, &points, "F.Cu"));
    let mut g = empty_geometry();
    g.track_arcs = IpcGeometryClass::unavailable("no arcs");
    assert!(!route_safe(&g, &points, "F.Cu"));
    assert_eq!(unsupported(&g, &points, "F.Cu"), vec![Unsupported::TrackArcsUnavailable]);
    assert_eq!(Unsupported::TrackArcsUnavailable.reason(&g), "no arcs");
    let mut g = empty_geometry();
    g.zones = IpcGeometryClass::unavailable("no zones");
    assert!(!route_safe(&g, &points, "F.Cu"));
    assert_eq!(unsupported(&g, &points, "F.Cu"), vec![Unsupported::ZonesUnavailable]);
    let mut g = empty_geometry();
    g.board_edges = IpcGeometryClass::unavailable("no edges");
    assert!(!route_safe(&g, &points, "F.Cu"));
    assert_eq!(unsupported(&g, &points, "F.Cu"), vec![Unsupported::EdgesUnavailable]);
    assert!(!route_safe(&empty_geometry(), &points, "In7.Cu"));
}

#[test]
fn a_zone_without_an_outline_makes_a_route_unsafe() {
    let mut geometry = empty_geometry();
    let mut zone = plane("F.Cu");
    zone.polygons = vec![];
    geometry.zones.items.push(zone);
    let found = unsupported(&geometry, &[(1.0, 1.0), (3.0, 1.0)], "F.Cu");
    assert_eq!(found, vec![Unsupported::Zone { index: 0, relevant: false }]);
    assert_eq!(found[0].reason(&geometry), "foreign zone outline is unavailable");
    geometry.zones.items[0].net_name = Some("SIGNAL".into());
    assert!(route_safe(&geometry, &[(1.0, 1.0), (3.0, 1.0)], "F.Cu"));
}

// Vias.

fn check(g: &IpcRoutingGeometry, at: P, start: &str, end: &str) -> ViaCheck {
    let measures = measure_via(g, at, 0.6, 0.2);
    check_via_clearance(g, "SIGNAL", start, end, s(0.2), &measures)
}

#[test]
fn a_via_on_an_empty_board_is_safe() {
    match check(&empty_geometry(), (5.0, 5.0), "F.Cu", "B.Cu") {
        ViaCheck::Checked(verdict) => {
            assert!(verdict.globally_safe);
            assert!(verdict.all_required_geometry_supported);
            assert_eq!(verdict.layers, vec!["F.Cu", "In1.Cu", "In2.Cu", "B.Cu"]);
            assert_eq!(verdict.minimum_clearance, None);
        }
        other => panic!("{other:?}"),
    }
}

#[test]
fn a_via_is_checked_on_every_layer_it_goes_through() {
    let mut geometry = empty_geometry();
    let mut inner = track("OTHER", 0.2, (4.0, 5.0), (6.0, 5.0));
    inner.layer = "In1.Cu".into();
    geometry.tracks.items.push(inner);
    geometry.vias.items.push(via("OTHER", 5.0, 5.5, Some(0.6), &["F.Cu", "B.Cu"]));
    match check(&geometry, (5.0, 5.0), "B.Cu", "F.Cu") {
        ViaCheck::Checked(verdict) => {
            assert!(!verdict.globally_safe);
            assert!(verdict.all_required_geometry_supported);
            let kinds: Vec<(usize, bool)> = verdict
                .collisions
                .iter()
                .map(|c| match c {
                    ViaCollision::Via { layer, .. } => (*layer, true),
                    ViaCollision::Track { layer, .. } => (*layer, false),
                    other => panic!("{other:?}"),
                })
                .collect();
            assert_eq!(kinds, vec![(0, true), (1, false), (3, true)]);
            assert!((f(verdict.minimum_clearance.unwrap()) + 0.4).abs() < 1e-9);
        }
        other => panic!("{other:?}"),
    }
    match check(&geometry, (5.0, 4.0), "In2.Cu", "In2.Cu") {
        ViaCheck::Checked(verdict) => assert!(verdict.globally_safe),
        other => panic!("{other:?}"),
    }
}

#[test]
fn what_a_via_cannot_be_judged_against_counts() {
    let mut geometry = empty_geometry();
    let mut custom = pad("U1", "1", "OTHER", 50.0, 50.0);
    custom.shape = Some("PssCustom".into());
    custom.geometry_supported = false;
    geometry.pads.items.push(custom);
    geometry.vias.items.push(via("OTHER", 60.0, 60.0, None, &["F.Cu"]));
    match check(&geometry, (5.0, 5.0), "F.Cu", "In1.Cu") {
        ViaCheck::Checked(verdict) => {
            assert!(!verdict.globally_safe);
            assert!(!verdict.all_required_geometry_supported);
            assert_eq!(
                verdict.collisions,
                vec![
                    ViaCollision::PadUnknown { layer: 0, pad: 0 },
                    ViaCollision::ViaUnknown { layer: 0, via: 0 },
                ]
            );
        }
        other => panic!("{other:?}"),
    }
}

#[test]
fn a_via_needs_known_and_enabled_layers() {
    let mut geometry = empty_geometry();
    match check(&geometry, (5.0, 5.0), "F.Cu", "In9.Cu") {
        ViaCheck::LayerNotEnabled => {}
        other => panic!("{other:?}"),
    }
    geometry.layers = IpcGeometryClass { available: false, items: vec![], reason: None };
    match check(&geometry, (5.0, 5.0), "F.Cu", "B.Cu") {
        ViaCheck::LayersUnavailable { reason } => {
            assert_eq!(reason, "IPC board layers unavailable")
        }
        other => panic!("{other:?}"),
    }
}

#[test]
fn a_via_near_the_edge_is_unsafe() {
    let mut geometry = empty_geometry();
    geometry.board_edges.items = vec![edge(0.0, 0.0, 10.0, 0.0)];
    match check(&geometry, (5.0, 0.4), "F.Cu", "B.Cu") {
        ViaCheck::Checked(verdict) => {
            assert!(!verdict.globally_safe);
            assert_eq!(verdict.collisions.len(), 1);
            assert!(matches!(verdict.collisions[0], ViaCollision::BoardEdge { edge: 0, .. }));
        }
        other => panic!("{other:?}"),
    }
}

#[test]
fn a_plane_without_an_outline_cannot_be_vouched_for() {
    let mut geometry = empty_geometry();
    let mut zone = plane("In1.Cu");
    zone.polygons = vec![vec![v(0.0, 0.0), v(1.0, 1.0)]];
    geometry.zones.items = vec![zone];
    match check(&geometry, (50.0, 50.0), "F.Cu", "B.Cu") {
        ViaCheck::Checked(verdict) => {
            assert!(!verdict.globally_safe);
            assert!(!verdict.zone_crossings[0].supported);
        }
        other => panic!("{other:?}"),
    }
}

// Arguments.

fn n(x: f64) -> Json {
    Json::Number(s(x))
}

fn t(x: &str) -> Json {
    Json::Text(x.into())
}

fn object(members: Vec<(&str, Json)>) -> Json {
    Json::Object(
        members.into_iter().map(|(name, value)| Member { name: name.into(), value }).collect(),
    )
}

fn point(x: f64, y: f64) -> Json {
    object(vec![("x", n(x)), ("y", n(y))])
}

fn said(error: ToolError) -> String {
    match error {
        ToolError::Said(message) => message,
        other => panic!("{other:?}"),
    }
}

#[test]
fn proposed_points_validation_is_strict() {
    assert!(parse_points(&object(vec![(
        "points",
        Json::Array(vec![point(0.0, 0.0), point(1.0, 1.0)])
    )]))
    .is_ok());
    assert!(parse_points(&object(vec![("points", Json::Array(vec![point(0.0, 0.0)]))])).is_err());
    assert!(parse_points(&object(vec![(
        "points",
        Json::Array(vec![object(vec![("x", n(0.0))]), point(1.0, 1.0)])
    )]))
    .is_err());
}

#[test]
fn points_are_refused_with_a_reason() {
    let missing = parse_points(&object(vec![])).unwrap_err();
    assert_eq!(said(missing), "Missing 'points' array");
    let bad = parse_points(&object(vec![("points", Json::Array(vec![Json::Null]))])).unwrap_err();
    assert_eq!(said(bad), "Every point requires numeric x and y");
    let few = parse_points(&object(vec![("points", Json::Array(vec![]))])).unwrap_err();
    assert_eq!(said(few), "At least two ordered points are required");
}

#[test]
fn region_validation_is_independent_of_board_bounds() {
    let of = |x_min: Json, y_min: Json, x_max: Json, y_max: Json| {
        object(vec![(
            "region",
            object(vec![("x_min", x_min), ("y_min", y_min), ("x_max", x_max), ("y_max", y_max)]),
        )])
    };
    assert_eq!(
        parse_region(&of(n(0.0), n(1.0), n(2.0), n(3.0))).unwrap(),
        Some(region(0.0, 1.0, 2.0, 3.0))
    );
    assert!(parse_region(&of(n(2.0), n(1.0), n(2.0), n(3.0))).is_err());
    assert!(parse_region(&of(n(0.0), n(1.0), Json::Null, n(3.0))).is_err());
}

#[test]
fn regions_are_refused_with_a_reason() {
    assert_eq!(parse_region(&object(vec![])).unwrap(), None);
    let flat = parse_region(&object(vec![("region", n(1.0))])).unwrap_err();
    assert_eq!(said(flat), "region must be an object");
    let endless = object(vec![("x_min", n(0.0)), ("y_min", n(f64::INFINITY))]);
    let endless = parse_region(&object(vec![("region", endless)])).unwrap_err();
    assert_eq!(said(endless), "region.y_min must be finite");
}

#[test]
fn allowed_pads_are_read_strictly() {
    assert!(parse_allowed_endpoint_pads(&object(vec![])).unwrap().is_empty());
    let pads = Json::Array(vec![object(vec![("reference", t("U1")), ("pad", t("7"))])]);
    let read = parse_allowed_endpoint_pads(&object(vec![("allowed_endpoint_pads", pads)])).unwrap();
    assert_eq!(read[0].reference, "U1");
    assert_eq!(read[0].pad, "7");
    let none = parse_allowed_endpoint_pads(&object(vec![("allowed_endpoint_pads", Json::Null)]))
        .unwrap_err();
    assert_eq!(said(none), "allowed_endpoint_pads must be an array");
    let empty = Json::Array(vec![object(vec![("reference", t("U1")), ("pad", t(""))])]);
    let empty = parse_allowed_endpoint_pads(&object(vec![("allowed_endpoint_pads", empty)]))
        .unwrap_err();
    assert_eq!(
        said(empty),
        "Every allowed endpoint pad requires non-empty reference and pad strings"
    );
}

#[test]
fn a_route_request_names_the_first_fault() {
    let points = || Json::Array(vec![point(0.0, 0.0), point(1.0, 1.0)]);
    let with = |width: f64, clearance: f64| {
        object(vec![
            ("points", points()),
            ("layer", t("F.Cu")),
            ("net", t("SIGNAL")),
            ("trace_width", n(width)),
            ("required_clearance", n(clearance)),
        ])
    };
    let request = parse_route_request(&with(0.2, 0.0)).unwrap();
    assert_eq!(request.points, vec![Point { x: s(0.0), y: s(0.0) }, Point { x: s(1.0), y: s(1.0) }]);
    assert_eq!(request.layer, "F.Cu");
    assert_eq!(request.trace_width, s(0.2));
    assert_eq!(said(parse_route_request(&with(0.0, 0.2)).unwrap_err()), "trace_width must be positive");
    assert_eq!(
        said(parse_route_request(&with(0.2, -0.1)).unwrap_err()),
        "required_clearance must be non-negative"
    );
    match parse_route_request(&object(vec![("points", points())])).unwrap_err() {
        ToolError::MissingText(name) => assert_eq!(name, "layer"),
        other => panic!("{other:?}"),
    }
}

#[test]
fn a_via_request_is_held_to_its_sizes() {
    let with = |diameter: f64, drill: f64, clearance: f64| {
        object(vec![
            ("x", n(1.0)),
            ("y", n(2.0)),
            ("diameter", n(diameter)),
            ("drill", n(drill)),
            ("required_clearance", n(clearance)),
            ("net", t("GND")),
            ("start_layer", t("F.Cu")),
            ("end_layer", t("B.Cu")),
        ])
    };
    let request = parse_via_request(&with(0.6, 0.3, 0.2)).unwrap();
    assert_eq!(request.net, "GND");
    assert_eq!(request.end_layer, "B.Cu");
    for wrong in [with(0.3, 0.3, 0.2), with(0.6, 0.0, 0.2), with(0.6, 0.3, -0.2)] {
        assert_eq!(
            said(parse_via_request(&wrong).unwrap_err()),
            "require diameter > drill > 0 and non-negative required_clearance"
        );
    }
    assert_eq!(
        said(parse_via_request(&object(vec![("x", n(1.0))])).unwrap_err()),
        "x, y, diameter, drill, and required_clearance must be numeric"
    );
    let nameless = object(vec![
        ("x", n(1.0)),
        ("y", n(2.0)),
        ("diameter", n(0.6)),
        ("drill", n(0.3)),
        ("required_clearance", n(0.2)),
    ]);
    assert_eq!(
        said(parse_via_request(&nameless).unwrap_err()),
        "net, start_layer, and end_layer are required"
    );
}

// Looking at a part.

fn places(g: &IpcRoutingGeometry) -> Places {
    let at = |q: &Vector2| Point { x: s(mm(q.x_nm)), y: s(mm(q.y_nm)) };
    Places {
        tracks: g
            .tracks
            .items
            .iter()
            .map(|t| TrackEnds { start: at(&t.start), end: at(&t.end) })
            .collect(),
        pads: g.pads.items.iter().map(|q| at(&q.position)).collect(),
        vias: g.vias.items.iter().map(|q| at(&q.position)).collect(),
        courtyards: g
            .courtyards
            .items
            .iter()
            .map(|c| c.polygons.iter().map(|poly| poly.iter().map(at).collect()).collect())
            .collect(),
    }
}

fn mixed_geometry() -> IpcRoutingGeometry {
    let mut g = empty_geometry();
    g.tracks.items =
        vec![track("GND", 0.2, (0.0, 0.0), (5.0, 5.0)), track("SIG", 0.2, (8.0, 8.0), (9.0, 9.0))];
    g.pads.items = vec![pad("R1", "1", "GND", 1.0, 1.0), pad("R1", "2", "SIG", 8.0, 8.0)];
    g.pads.items[1].layers = vec![];
    g.vias.items = vec![via("GND", 1.0, 1.0, Some(0.6), &["B.Cu"])];
    g.zones.items = vec![plane("F.Cu"), plane("In1.Cu")];
    g.courtyards.items =
        vec![square("courtyard", "F.CrtYd", None, &[(7.0, 7.0), (7.5, 7.0), (7.5, 7.5)])];
    g
}

#[test]
fn everything_is_kept_without_filters() {
    let g = mixed_geometry();
    let kept = select_geometry(&g, None, None, None, &places(&g));
    assert_eq!(kept.tracks, vec![0, 1]);
    assert_eq!(kept.pads, vec![0, 1]);
    assert_eq!(kept.vias, vec![0]);
    assert_eq!(kept.zones, vec![0, 1]);
    assert_eq!(kept.courtyards, vec![0]);
}

#[test]
fn filters_narrow_each_class() {
    let g = mixed_geometry();
    let by_layer = select_geometry(&g, Some("F.Cu"), None, None, &places(&g));
    assert_eq!(by_layer.pads, vec![0, 1]);
    assert!(by_layer.vias.is_empty());
    assert_eq!(by_layer.zones, vec![0]);
    let mut curved = mixed_geometry();
    curved.track_arcs.items = vec![
        track_arc("GND", "F.Cu", 0.0, 0.0),
        track_arc("SIG", "F.Cu", 1.0, 0.0),
        track_arc("SIG", "B.Cu", 2.0, 0.0),
    ];
    assert_eq!(select_track_arcs(&curved, None, None), vec![0, 1, 2]);
    assert_eq!(select_track_arcs(&curved, Some("F.Cu"), None), vec![0, 1]);
    assert_eq!(select_track_arcs(&curved, Some("F.Cu"), Some("SIG")), vec![1]);
    let by_net = select_geometry(&g, None, Some("SIG"), None, &places(&g));
    assert_eq!(by_net.tracks, vec![1]);
    assert_eq!(by_net.pads, vec![1]);
    assert!(by_net.zones.is_empty());
    let corner = region(0.0, 0.0, 1.0, 1.0);
    let by_place = select_geometry(&g, None, None, Some(corner), &places(&g));
    assert_eq!(by_place.tracks, vec![0]);
    assert_eq!(by_place.pads, vec![0]);
    assert_eq!(by_place.vias, vec![0]);
    assert_eq!(by_place.zones, vec![0, 1]);
    assert!(by_place.courtyards.is_empty());
}

// The tools.

#[test]
fn inspection_tools_are_registered_in_pcb_routing() {
    let names: Vec<_> = tools().into_iter().map(|t| t.name).collect();
    assert!(names.iter().any(|n| *n == "get_routing_geometry"));
    assert!(names.iter().any(|n| *n == "check_route_clearance"));
    assert!(names.iter().any(|n| *n == "check_via_clearance"));
}

#[test]
fn all_tools_are_there_once() {
    let mut names: Vec<_> = tools().into_iter().map(|t| t.name).collect();
    assert_eq!(names.len(), 15);
    names.sort();
    names.dedup();
    assert_eq!(names.len(), 15);
}

#[test]
fn tools_say_what_they_take() {
    for tool in tools() {
        assert_eq!(tool.params[0].name, "board");
        assert!(tool.params[0].required);
        if tool.name == "add_via" {
            let drill = tool.params.iter().find(|q| q.name == "drill").unwrap();
            assert!(!drill.required);
            match drill.default {
                ParamDefault::Number(bits) => assert_eq!(f64::from_bits(bits), 0.4),
                other => panic!("{other:?}"),
            }
        }
        if tool.name == "check_route_clearance" {
            let points = tool.params.iter().find(|q| q.name == "points").unwrap();
            assert_eq!(points.kind, ParamKind::RoutePoints);
        }
    }
    assert_eq!(unsupported_capabilities().len(), 6);
    assert_eq!(unavailable_geometry().len(), 5);
}
