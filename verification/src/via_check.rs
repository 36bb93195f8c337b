//! The verdict on a proposed via.
//!
//! A via is checked on every copper layer that it goes through. As with routes, what cannot be
//! judged counts against it.

use crate::board::{
    IpcBoardEdgeGeometry, IpcPadGeometry, IpcRoutingGeometry, IpcTrack, IpcViaGeometry, PadView,
    PolygonView, RoutingView, TrackView, ViaView,
};
use crate::clearance::{is_on, lies_on, outline_of, pad_outline};
use crate::gather::{
    gather, gather_indexed, lemma_gather_contains, lemma_gather_indexed_contains,
    lemma_gather_indexed_step, lemma_gather_step,
};
use crate::json::{
    number_at, read_of, refuse, text_at, Json, Read, ToolError, ToolErrorView,
};
use crate::layers::{traversed, traversed_layers};
use crate::messages::Vector2;
use crate::route_check::{
    copy_reason, has_outline, net_of_zone, outline_is_supported, reason_or, zone_net_is,
};
use crate::scalar::{infinity, infinity_spec, zero, zero_spec, Scalar};
use crate::text;
use vstd::prelude::*;
use vstd::string::*;

verus! {

// The request.

/// A via that is to be checked. Lengths are in millimetres.
#[derive(Debug)]
pub struct ViaRequest {
    pub x: Scalar,
    pub y: Scalar,
    pub diameter: Scalar,
    pub drill: Scalar,
    pub required_clearance: Scalar,
    pub net: String,
    pub start_layer: String,
    pub end_layer: String,
}

#[verifier::ext_equal]
pub struct ViaRequestView {
    pub x: Scalar,
    pub y: Scalar,
    pub diameter: Scalar,
    pub drill: Scalar,
    pub required_clearance: Scalar,
    pub net: Seq<char>,
    pub start_layer: Seq<char>,
    pub end_layer: Seq<char>,
}

impl DeepView for ViaRequest {
    type V = ViaRequestView;

    open spec fn deep_view(&self) -> ViaRequestView {
        ViaRequestView {
            x: self.x,
            y: self.y,
            diameter: self.diameter,
            drill: self.drill,
            required_clearance: self.required_clearance,
            net: self.net@,
            start_layer: self.start_layer@,
            end_layer: self.end_layer@,
        }
    }
}

/// Whether the sizes of a via cannot be: each of the comparisons holds of numbers only.
pub open spec fn sizes_are_wrong(diameter: Scalar, drill: Scalar, clearance: Scalar) -> bool {
    ||| diameter.at_most(zero_spec())
    ||| drill.at_most(zero_spec())
    ||| diameter.at_most(drill)
    ||| clearance.below(zero_spec())
}

/// The via that the arguments ask about.
pub open spec fn via_request(args: Json) -> Read<ViaRequestView> {
    match (
        number_at(args, "x"@),
        number_at(args, "y"@),
        number_at(args, "diameter"@),
        number_at(args, "drill"@),
        number_at(args, "required_clearance"@),
    ) {
        (Some(x), Some(y), Some(diameter), Some(drill), Some(required_clearance)) =>
            if sizes_are_wrong(diameter, drill, required_clearance) {
                Err(
                    ToolErrorView::Said(
                        "require diameter > drill > 0 and non-negative required_clearance"@,
                    ),
                )
            } else {
                match (
                    text_at(args, "net"@),
                    text_at(args, "start_layer"@),
                    text_at(args, "end_layer"@),
                ) {
                    (Some(net), Some(start_layer), Some(end_layer)) => Ok(
                        ViaRequestView {
                            x,
                            y,
                            diameter,
                            drill,
                            required_clearance,
                            net,
                            start_layer,
                            end_layer,
                        },
                    ),
                    _ => Err(
                        ToolErrorView::Said("net, start_layer, and end_layer are required"@),
                    ),
                }
            },
        _ => Err(
            ToolErrorView::Said(
                "x, y, diameter, drill, and required_clearance must be numeric"@,
            ),
        ),
    }
}

/// Reads the via that the arguments ask about.
pub fn parse_via_request(args: &Json) -> (r: Result<ViaRequest, ToolError>)
    ensures
        read_of(r) == via_request(*args),
{
    let (x, y, diameter, drill, required_clearance) = match (
        args.get_number("x"),
        args.get_number("y"),
        args.get_number("diameter"),
        args.get_number("drill"),
        args.get_number("required_clearance"),
    ) {
        (Some(x), Some(y), Some(diameter), Some(drill), Some(required_clearance)) => (
            x,
            y,
            diameter,
            drill,
            required_clearance,
        ),
        _ => {
            return Err(
                refuse("x, y, diameter, drill, and required_clearance must be numeric"),
            );
        },
    };
    if diameter.le(zero()) || drill.le(zero()) || diameter.le(drill) || required_clearance.lt(
        zero(),
    ) {
        return Err(refuse("require diameter > drill > 0 and non-negative required_clearance"));
    }
    match (args.get_text("net"), args.get_text("start_layer"), args.get_text("end_layer")) {
        (Some(net), Some(start_layer), Some(end_layer)) => Ok(
            ViaRequest {
                x,
                y,
                diameter,
                drill,
                required_clearance,
                net: net.to_owned(),
                start_layer: start_layer.to_owned(),
                end_layer: end_layer.to_owned(),
            },
        ),
        _ => Err(refuse("net, start_layer, and end_layer are required")),
    }
}

// What the caller measured.

/// The radius that a plane has to keep clear, the gap from the via to each object, and whether
/// its middle lies inside each polygon of each zone.
#[derive(Debug)]
pub struct ViaMeasures {
    /// The radius of the hole that a plane of another net needs around the via.
    pub antipad_radius: Scalar,
    pub pads: Vec<Scalar>,
    pub tracks: Vec<Scalar>,
    pub vias: Vec<Scalar>,
    pub edges: Vec<Scalar>,
    pub zones: Vec<Vec<bool>>,
}

/// Whether the measures are those of a board.
pub open spec fn via_fits(m: ViaMeasures, g: RoutingView) -> bool {
    &&& m.pads@.len() == g.pads.items.len()
    &&& m.tracks@.len() == g.tracks.items.len()
    &&& m.vias@.len() == g.vias.items.len()
    &&& m.edges@.len() == g.board_edges.items.len()
    &&& m.zones@.len() == g.zones.items.len()
    &&& forall|i: int|
        0 <= i < m.zones@.len() ==> (#[trigger] m.zones@[i])@.len()
            == g.zones.items[i].polygons.len()
}

// Planes that the via goes through.

/// A zone of another net that a via goes through: the layer by its place among those gone
/// through, the zone by its place in its list.
#[derive(Clone, Copy, Debug, PartialEq, Eq, Structural)]
pub struct ZoneCrossing {
    pub layer: usize,
    pub zone: usize,
    /// Whether the zone needs a hole around the via: always, where it is of another net.
    pub antipad_required: bool,
    pub required_antipad_radius: Scalar,
    /// Whether the hole that the zone needs around the via can be vouched for.
    pub supported: bool,
}

/// Whether a via goes through a zone. One without an outline is taken to be gone through.
pub open spec fn crosses(polygons: Seq<Seq<Vector2>>, inside: Seq<bool>) -> bool {
    !has_outline(polygons) || inside.contains(true)
}

/// Whether the outlines of all pads on a layer are known.
pub open spec fn pads_known_on(pads: Seq<PadView>, layer: Seq<char>) -> bool {
    forall|i: int|
        0 <= i < pads.len() && lies_on((#[trigger] pads[i]).layers, layer)
            ==> pads[i].geometry_supported
}

/// Whether all that lies near a hole in a plane is known.
pub open spec fn surroundings_known(g: RoutingView, layer: Seq<char>) -> bool {
    &&& g.pads.available
    &&& g.tracks.available
    &&& g.vias.available
    &&& g.board_edges.available
    &&& pads_known_on(g.pads.items, layer)
}

/// The crossing of a zone of another net on a layer.
pub open spec fn zone_crossing(
    g: RoutingView,
    k: int,
    layer: Seq<char>,
    net: Seq<char>,
    m: ViaMeasures,
) -> spec_fn(int, PolygonView) -> Seq<ZoneCrossing> {
    |i: int, zone: PolygonView|
        if zone.layer == layer && net_of_zone(zone) != net && crosses(
            zone.polygons,
            m.zones@[i]@,
        ) {
            seq![
                ZoneCrossing {
                    layer: k as usize,
                    zone: i as usize,
                    antipad_required: true,
                    required_antipad_radius: m.antipad_radius,
                    supported: has_outline(zone.polygons) && surroundings_known(g, layer),
                },
            ]
        } else {
            Seq::empty()
        }
}

/// The crossings of all zones of other nets, layer by layer.
pub open spec fn zone_crossings(
    g: RoutingView,
    layers: Seq<Seq<char>>,
    net: Seq<char>,
    m: ViaMeasures,
) -> Seq<ZoneCrossing> {
    gather_indexed(
        layers,
        |k: int, layer: Seq<char>|
            gather_indexed(g.zones.items, zone_crossing(g, k, layer, net, m)),
    )
}

/// Whether the zones are known and every crossing can be vouched for.
pub open spec fn crossings_supported(g: RoutingView, crossings: Seq<ZoneCrossing>) -> bool {
    g.zones.available && forall|i: int|
        0 <= i < crossings.len() ==> (#[trigger] crossings[i]).supported
}

fn holds_true(flags: &Vec<bool>) -> (r: bool)
    ensures
        r == flags@.contains(true),
{
    let mut i: usize = 0;
    while i < flags.len()
        invariant
            i <= flags@.len(),
            forall|j: int| 0 <= j < i ==> !#[trigger] flags@[j],
        decreases flags@.len() - i,
    {
        if flags[i] {
            assert(flags@.contains(true));
            return true;
        }
        i += 1;
    }
    false
}

fn pads_are_known(pads: &Vec<IpcPadGeometry>, layer: &str) -> (r: bool)
    ensures
        r == pads_known_on(pads.deep_view(), layer@),
{
    let ghost all = pads.deep_view();
    let mut i: usize = 0;
    while i < pads.len()
        invariant
            i <= pads@.len(),
            all == pads.deep_view(),
            forall|j: int|
                0 <= j < i && lies_on((#[trigger] all[j]).layers, layer@)
                    ==> all[j].geometry_supported,
        decreases pads@.len() - i,
    {
        assert(all[i as int] == pads@[i as int].deep_view());
        if is_on(&pads[i].layers, layer) && !pads[i].geometry_supported {
            return false;
        }
        i += 1;
    }
    true
}

fn cross_zones_on(
    g: &IpcRoutingGeometry,
    k: usize,
    layer: &str,
    net: &str,
    m: &ViaMeasures,
) -> (r: Vec<ZoneCrossing>)
    requires
        via_fits(*m, g.deep_view()),
    ensures
        r@ == gather_indexed(
            g.zones.items.deep_view(),
            zone_crossing(g.deep_view(), k as int, layer@, net@, *m),
        ),
{
    let ghost view = g.deep_view();
    let ghost all = g.zones.items.deep_view();
    let ghost pick = zone_crossing(view, k as int, layer@, net@, *m);
    let known = g.pads.available && g.tracks.available && g.vias.available
        && g.board_edges.available && pads_are_known(&g.pads.items, layer);
    let zones = &g.zones.items;
    let mut out: Vec<ZoneCrossing> = Vec::new();
    let mut i: usize = 0;
    while i < zones.len()
        invariant
            i <= zones@.len(),
            view == g.deep_view(),
            via_fits(*m, view),
            *zones == g.zones.items,
            all == zones.deep_view(),
            all == view.zones.items,
            known == surroundings_known(view, layer@),
            pick == zone_crossing(view, k as int, layer@, net@, *m),
            out@ == gather_indexed(all.take(i as int), pick),
        decreases zones@.len() - i,
    {
        let zone = &zones[i];
        proof {
            assert(all[i as int] == zone.deep_view());
            lemma_gather_indexed_step(all, pick, i as int);
        }
        if text::same(zone.layer.as_str(), layer) && !zone_net_is(zone, net) {
            let outlined = outline_is_supported(&zone.polygons);
            if !outlined || holds_true(&m.zones[i]) {
                out.push(
                    ZoneCrossing {
                        layer: k,
                        zone: i,
                        antipad_required: true,
                        required_antipad_radius: m.antipad_radius,
                        supported: outlined && known,
                    },
                );
            }
        }
        i += 1;
    }
    assert(all.take(all.len() as int) == all);
    out
}

/// The zones of other nets that a via goes through, and whether all of them can be vouched
/// for.
pub fn foreign_zone_crossings(
    g: &IpcRoutingGeometry,
    layers: &Vec<String>,
    net: &str,
    m: &ViaMeasures,
) -> (r: (Vec<ZoneCrossing>, bool))
    requires
        via_fits(*m, g.deep_view()),
    ensures
        r.0@ == zone_crossings(g.deep_view(), layers.deep_view(), net@, *m),
        r.1 == crossings_supported(g.deep_view(), r.0@),
{
    let ghost view = g.deep_view();
    let ghost all = layers.deep_view();
    let ghost pick = |k: int, layer: Seq<char>|
        gather_indexed(view.zones.items, zone_crossing(view, k, layer, net@, *m));
    let mut out: Vec<ZoneCrossing> = Vec::new();
    let mut k: usize = 0;
    while k < layers.len()
        invariant
            k <= layers@.len(),
            view == g.deep_view(),
            via_fits(*m, view),
            all == layers.deep_view(),
            pick == (|k: int, layer: Seq<char>|
                gather_indexed(view.zones.items, zone_crossing(view, k, layer, net@, *m))),
            out@ == gather_indexed(all.take(k as int), pick),
        decreases layers@.len() - k,
    {
        proof {
            assert(all[k as int] == layers@[k as int]@);
            lemma_gather_indexed_step(all, pick, k as int);
        }
        let mut found = cross_zones_on(g, k, layers[k].as_str(), net, m);
        out.append(&mut found);
        k += 1;
    }
    assert(all.take(all.len() as int) == all);
    let mut supported = g.zones.available;
    let mut i: usize = 0;
    while i < out.len()
        invariant
            i <= out@.len(),
            supported == (g.zones.available && forall|j: int|
                0 <= j < i ==> (#[trigger] out@[j]).supported),
        decreases out@.len() - i,
    {
        if !out[i].supported {
            supported = false;
        }
        i += 1;
    }
    (out, supported)
}

// Collisions.

/// What speaks against a via: an object of another net that it comes too near, or one whose
/// outline is not known. The layer is given by its place among those gone through.
#[derive(Clone, Copy, Debug, PartialEq, Eq, Structural)]
pub enum ViaCollision {
    PadUnknown { layer: usize, pad: usize },
    Pad { layer: usize, pad: usize, gap: Scalar },
    Track { layer: usize, track: usize, gap: Scalar },
    Via { layer: usize, via: usize, gap: Scalar },
    ViaUnknown { layer: usize, via: usize },
    BoardEdge { edge: usize, gap: Scalar },
}

/// What an object comes to: a gap that counts for the least one, and a collision.
#[derive(Clone, Copy, Debug, PartialEq, Eq, Structural)]
pub struct Finding {
    pub gap: Option<Scalar>,
    pub collision: Option<ViaCollision>,
}

pub open spec fn gap_finding(gap: Scalar, clearance: Scalar, collision: ViaCollision) -> Finding {
    Finding {
        gap: Some(gap),
        collision: if gap.below(clearance) {
            Some(collision)
        } else {
            None
        },
    }
}

fn find_gap(gap: Scalar, clearance: Scalar, collision: ViaCollision) -> (r: Finding)
    ensures
        r == gap_finding(gap, clearance, collision),
{
    Finding {
        gap: Some(gap),
        collision: if gap.lt(clearance) {
            Some(collision)
        } else {
            None
        },
    }
}

/// A pad of another net on the layer.
pub open spec fn pad_finding(
    k: int,
    layer: Seq<char>,
    net: Seq<char>,
    clearance: Scalar,
    gaps: Seq<Scalar>,
) -> spec_fn(int, PadView) -> Seq<Finding> {
    |i: int, pad: PadView|
        if pad.net_name != net && lies_on(pad.layers, layer) {
            if outline_of(pad) is None {
                seq![
                    Finding {
                        gap: None,
                        collision: Some(
                            ViaCollision::PadUnknown { layer: k as usize, pad: i as usize },
                        ),
                    },
                ]
            } else {
                seq![
                    gap_finding(
                        gaps[i],
                        clearance,
                        ViaCollision::Pad { layer: k as usize, pad: i as usize, gap: gaps[i] },
                    ),
                ]
            }
        } else {
            Seq::empty()
        }
}

/// A track of another net on the layer.
pub open spec fn track_finding(
    k: int,
    layer: Seq<char>,
    net: Seq<char>,
    clearance: Scalar,
    gaps: Seq<Scalar>,
) -> spec_fn(int, TrackView) -> Seq<Finding> {
    |i: int, track: TrackView|
        if track.layer == layer && track.net_name != net {
            seq![
                gap_finding(
                    gaps[i],
                    clearance,
                    ViaCollision::Track { layer: k as usize, track: i as usize, gap: gaps[i] },
                ),
            ]
        } else {
            Seq::empty()
        }
}

/// A via of another net on the layer.
pub open spec fn via_finding(
    k: int,
    layer: Seq<char>,
    net: Seq<char>,
    clearance: Scalar,
    gaps: Seq<Scalar>,
) -> spec_fn(int, ViaView) -> Seq<Finding> {
    |i: int, via: ViaView|
        if via.net_name != net && lies_on(via.layers, layer) {
            if via.size is None {
                seq![
                    Finding {
                        gap: None,
                        collision: Some(
                            ViaCollision::ViaUnknown { layer: k as usize, via: i as usize },
                        ),
                    },
                ]
            } else {
                seq![
                    gap_finding(
                        gaps[i],
                        clearance,
                        ViaCollision::Via { layer: k as usize, via: i as usize, gap: gaps[i] },
                    ),
                ]
            }
        } else {
            Seq::empty()
        }
}

/// A piece of the board's edge.
pub open spec fn edge_finding(clearance: Scalar, gaps: Seq<Scalar>) -> spec_fn(
    int,
    IpcBoardEdgeGeometry,
) -> Seq<Finding> {
    |i: int, edge: IpcBoardEdgeGeometry|
        seq![
            gap_finding(
                gaps[i],
                clearance,
                ViaCollision::BoardEdge { edge: i as usize, gap: gaps[i] },
            ),
        ]
}

/// What there is on one layer.
pub open spec fn findings_on(
    g: RoutingView,
    k: int,
    layer: Seq<char>,
    net: Seq<char>,
    clearance: Scalar,
    m: ViaMeasures,
) -> Seq<Finding> {
    gather_indexed(g.pads.items, pad_finding(k, layer, net, clearance, m.pads@)) + gather_indexed(
        g.tracks.items,
        track_finding(k, layer, net, clearance, m.tracks@),
    ) + gather_indexed(g.vias.items, via_finding(k, layer, net, clearance, m.vias@))
}

/// What there is on all layers, and the board's edge.
pub open spec fn findings(
    g: RoutingView,
    layers: Seq<Seq<char>>,
    net: Seq<char>,
    clearance: Scalar,
    m: ViaMeasures,
) -> Seq<Finding> {
    gather_indexed(
        layers,
        |k: int, layer: Seq<char>| findings_on(g, k, layer, net, clearance, m),
    ) + gather_indexed(g.board_edges.items, edge_finding(clearance, m.edges@))
}

pub open spec fn collisions_in(found: Seq<Finding>) -> Seq<ViaCollision> {
    gather(
        found,
        |f: Finding|
            match f.collision {
                Some(c) => seq![c],
                None => Seq::empty(),
            },
    )
}

/// The least of the gaps; infinity where there is none.
pub open spec fn least_gap(found: Seq<Finding>) -> Scalar
    decreases found.len(),
{
    if found.len() == 0 {
        infinity_spec()
    } else {
        match found.last().gap {
            Some(gap) => least_gap(found.drop_last()).lesser(gap),
            None => least_gap(found.drop_last()),
        }
    }
}

fn find_pads(
    pads: &Vec<IpcPadGeometry>,
    k: usize,
    layer: &str,
    net: &str,
    clearance: Scalar,
    gaps: &Vec<Scalar>,
) -> (r: Vec<Finding>)
    requires
        gaps@.len() == pads@.len(),
    ensures
        r@ == gather_indexed(
            pads.deep_view(),
            pad_finding(k as int, layer@, net@, clearance, gaps@),
        ),
{
    let ghost all = pads.deep_view();
    let ghost pick = pad_finding(k as int, layer@, net@, clearance, gaps@);
    let mut out: Vec<Finding> = Vec::new();
    let mut i: usize = 0;
    while i < pads.len()
        invariant
            i <= pads@.len(),
            gaps@.len() == pads@.len(),
            all == pads.deep_view(),
            pick == pad_finding(k as int, layer@, net@, clearance, gaps@),
            out@ == gather_indexed(all.take(i as int), pick),
        decreases pads@.len() - i,
    {
        let pad = &pads[i];
        proof {
            assert(all[i as int] == pad.deep_view());
            lemma_gather_indexed_step(all, pick, i as int);
        }
        if !text::same(pad.net_name.as_str(), net) && is_on(&pad.layers, layer) {
            if pad_outline(pad).is_none() {
                out.push(
                    Finding {
                        gap: None,
                        collision: Some(ViaCollision::PadUnknown { layer: k, pad: i }),
                    },
                );
            } else {
                let gap = gaps[i];
                out.push(
                    find_gap(gap, clearance, ViaCollision::Pad { layer: k, pad: i, gap }),
                );
            }
        }
        i += 1;
    }
    assert(all.take(all.len() as int) == all);
    out
}

fn find_tracks(
    tracks: &Vec<IpcTrack>,
    k: usize,
    layer: &str,
    net: &str,
    clearance: Scalar,
    gaps: &Vec<Scalar>,
) -> (r: Vec<Finding>)
    requires
        gaps@.len() == tracks@.len(),
    ensures
        r@ == gather_indexed(
            tracks.deep_view(),
            track_finding(k as int, layer@, net@, clearance, gaps@),
        ),
{
    let ghost all = tracks.deep_view();
    let ghost pick = track_finding(k as int, layer@, net@, clearance, gaps@);
    let mut out: Vec<Finding> = Vec::new();
    let mut i: usize = 0;
    while i < tracks.len()
        invariant
            i <= tracks@.len(),
            gaps@.len() == tracks@.len(),
            all == tracks.deep_view(),
            pick == track_finding(k as int, layer@, net@, clearance, gaps@),
            out@ == gather_indexed(all.take(i as int), pick),
        decreases tracks@.len() - i,
    {
        let track = &tracks[i];
        proof {
            assert(all[i as int] == track.deep_view());
            lemma_gather_indexed_step(all, pick, i as int);
        }
        if text::same(track.layer.as_str(), layer) && !text::same(track.net_name.as_str(), net) {
            let gap = gaps[i];
            out.push(find_gap(gap, clearance, ViaCollision::Track { layer: k, track: i, gap }));
        }
        i += 1;
    }
    assert(all.take(all.len() as int) == all);
    out
}

fn find_vias(
    vias: &Vec<IpcViaGeometry>,
    k: usize,
    layer: &str,
    net: &str,
    clearance: Scalar,
    gaps: &Vec<Scalar>,
) -> (r: Vec<Finding>)
    requires
        gaps@.len() == vias@.len(),
    ensures
        r@ == gather_indexed(
            vias.deep_view(),
            via_finding(k as int, layer@, net@, clearance, gaps@),
        ),
{
    let ghost all = vias.deep_view();
    let ghost pick = via_finding(k as int, layer@, net@, clearance, gaps@);
    let mut out: Vec<Finding> = Vec::new();
    let mut i: usize = 0;
    while i < vias.len()
        invariant
            i <= vias@.len(),
            gaps@.len() == vias@.len(),
            all == vias.deep_view(),
            pick == via_finding(k as int, layer@, net@, clearance, gaps@),
            out@ == gather_indexed(all.take(i as int), pick),
        decreases vias@.len() - i,
    {
        let via = &vias[i];
        proof {
            assert(all[i as int] == via.deep_view());
            lemma_gather_indexed_step(all, pick, i as int);
        }
        if !text::same(via.net_name.as_str(), net) && is_on(&via.layers, layer) {
            if via.size.is_none() {
                out.push(
                    Finding {
                        gap: None,
                        collision: Some(ViaCollision::ViaUnknown { layer: k, via: i }),
                    },
                );
            } else {
                let gap = gaps[i];
                out.push(find_gap(gap, clearance, ViaCollision::Via { layer: k, via: i, gap }));
            }
        }
        i += 1;
    }
    assert(all.take(all.len() as int) == all);
    out
}

fn find_edges(edges: &Vec<IpcBoardEdgeGeometry>, clearance: Scalar, gaps: &Vec<Scalar>) -> (r: Vec<
    Finding,
>)
    requires
        gaps@.len() == edges@.len(),
    ensures
        r@ == gather_indexed(edges.deep_view(), edge_finding(clearance, gaps@)),
{
    let ghost all = edges.deep_view();
    let ghost pick = edge_finding(clearance, gaps@);
    let mut out: Vec<Finding> = Vec::new();
    let mut i: usize = 0;
    while i < edges.len()
        invariant
            i <= edges@.len(),
            gaps@.len() == edges@.len(),
            all == edges.deep_view(),
            pick == edge_finding(clearance, gaps@),
            out@ == gather_indexed(all.take(i as int), pick),
        decreases edges@.len() - i,
    {
        proof {
            lemma_gather_indexed_step(all, pick, i as int);
        }
        let gap = gaps[i];
        out.push(find_gap(gap, clearance, ViaCollision::BoardEdge { edge: i, gap }));
        i += 1;
    }
    assert(all.take(all.len() as int) == all);
    out
}

fn find_all(
    g: &IpcRoutingGeometry,
    layers: &Vec<String>,
    net: &str,
    clearance: Scalar,
    m: &ViaMeasures,
) -> (r: Vec<Finding>)
    requires
        via_fits(*m, g.deep_view()),
    ensures
        r@ == findings(g.deep_view(), layers.deep_view(), net@, clearance, *m),
{
    let ghost view = g.deep_view();
    let ghost all = layers.deep_view();
    let ghost pick = |k: int, layer: Seq<char>| findings_on(view, k, layer, net@, clearance, *m);
    let mut out: Vec<Finding> = Vec::new();
    let mut k: usize = 0;
    while k < layers.len()
        invariant
            k <= layers@.len(),
            view == g.deep_view(),
            via_fits(*m, view),
            all == layers.deep_view(),
            pick == (|k: int, layer: Seq<char>|
                findings_on(view, k, layer, net@, clearance, *m)),
            out@ == gather_indexed(all.take(k as int), pick),
        decreases layers@.len() - k,
    {
        let layer = layers[k].as_str();
        proof {
            assert(all[k as int] == layers@[k as int]@);
            lemma_gather_indexed_step(all, pick, k as int);
        }
        let ghost before = out@;
        let mut pads = find_pads(&g.pads.items, k, layer, net, clearance, &m.pads);
        let mut tracks = find_tracks(&g.tracks.items, k, layer, net, clearance, &m.tracks);
        let mut vias = find_vias(&g.vias.items, k, layer, net, clearance, &m.vias);
        let ghost here = pads@ + tracks@ + vias@;
        out.append(&mut pads);
        out.append(&mut tracks);
        out.append(&mut vias);
        assert(out@ == before + here);
        k += 1;
    }
    assert(all.take(all.len() as int) == all);
    let mut edges = find_edges(&g.board_edges.items, clearance, &m.edges);
    out.append(&mut edges);
    out
}

fn sum_up(found: &Vec<Finding>) -> (r: (Vec<ViaCollision>, Scalar))
    ensures
        r.0@ == collisions_in(found@),
        r.1 == least_gap(found@),
{
    let ghost all = found@;
    let ghost pick = |f: Finding|
        match f.collision {
            Some(c) => seq![c],
            None => Seq::empty(),
        };
    let mut collisions: Vec<ViaCollision> = Vec::new();
    let mut minimum = infinity();
    let mut i: usize = 0;
    while i < found.len()
        invariant
            i <= found@.len(),
            all == found@,
            pick == (|f: Finding|
                match f.collision {
                    Some(c) => seq![c],
                    None => Seq::empty(),
                }),
            collisions@ == gather(all.take(i as int), pick),
            minimum == least_gap(all.take(i as int)),
        decreases found@.len() - i,
    {
        proof {
            lemma_gather_step(all, pick, i as int);
            assert(all.take(i + 1).drop_last() == all.take(i as int));
        }
        if let Some(gap) = found[i].gap {
            minimum = minimum.min(gap);
        }
        if let Some(collision) = found[i].collision {
            collisions.push(collision);
        }
        i += 1;
    }
    assert(all.take(all.len() as int) == all);
    (collisions, minimum)
}

// The verdict.

/// Whether the outlines of all pads on any of the layers are known.
pub open spec fn pads_known(pads: Seq<PadView>, layers: Seq<Seq<char>>) -> bool {
    forall|i: int|
        0 <= i < pads.len() && ((#[trigger] pads[i]).layers.len() == 0 || exists|k: int|
            0 <= k < pads[i].layers.len() && layers.contains(#[trigger] pads[i].layers[k]))
            ==> pads[i].geometry_supported
}

fn shares_layer(own: &Vec<String>, layers: &Vec<String>) -> (r: bool)
    ensures
        r == exists|k: int|
            0 <= k < own.deep_view().len() && layers.deep_view().contains(
                #[trigger] own.deep_view()[k],
            ),
{
    let ghost mine = own.deep_view();
    let mut k: usize = 0;
    while k < own.len()
        invariant
            k <= own@.len(),
            mine == own.deep_view(),
            forall|j: int| 0 <= j < k ==> !layers.deep_view().contains(#[trigger] mine[j]),
        decreases own@.len() - k,
    {
        assert(mine[k as int] == own@[k as int]@);
        if text::list_holds(layers, own[k].as_str()) {
            return true;
        }
        k += 1;
    }
    false
}

fn all_pads_known(pads: &Vec<IpcPadGeometry>, layers: &Vec<String>) -> (r: bool)
    ensures
        r == pads_known(pads.deep_view(), layers.deep_view()),
{
    let ghost all = pads.deep_view();
    let mut i: usize = 0;
    while i < pads.len()
        invariant
            i <= pads@.len(),
            all == pads.deep_view(),
            forall|j: int|
                0 <= j < i && ((#[trigger] all[j]).layers.len() == 0 || exists|k: int|
                    0 <= k < all[j].layers.len() && layers.deep_view().contains(
                        #[trigger] all[j].layers[k],
                    )) ==> all[j].geometry_supported,
        decreases pads@.len() - i,
    {
        let pad = &pads[i];
        assert(all[i as int] == pad.deep_view());
        if (pad.layers.len() == 0 || shares_layer(&pad.layers, layers)) && !pad.geometry_supported {
            return false;
        }
        i += 1;
    }
    true
}

/// The verdict on a via.
#[derive(Debug)]
pub enum ViaCheck {
    /// The layers of the board are not known.
    LayersUnavailable { reason: String },
    /// One of the two layers is not a copper layer of the board.
    LayerNotEnabled,
    Checked(ViaVerdict),
}

#[derive(Debug)]
pub struct ViaVerdict {
    pub layers: Vec<String>,
    pub collisions: Vec<ViaCollision>,
    pub zone_crossings: Vec<ZoneCrossing>,
    pub all_required_geometry_supported: bool,
    pub globally_safe: bool,
    /// The least gap, where there is any.
    pub minimum_clearance: Option<Scalar>,
}

/// Whether all geometry that bears on a via is known.
pub open spec fn via_geometry_known(
    g: RoutingView,
    layers: Seq<Seq<char>>,
    crossings: Seq<ZoneCrossing>,
) -> bool {
    &&& g.tracks.available
    &&& g.pads.available
    &&& pads_known(g.pads.items, layers)
    &&& g.vias.available
    &&& g.board_edges.available
    &&& g.zones.available
    &&& crossings_supported(g, crossings)
}

/// Whether a verdict is the one for a via through these layers.
pub open spec fn is_via_verdict(
    verdict: ViaVerdict,
    g: RoutingView,
    layers: Seq<Seq<char>>,
    net: Seq<char>,
    clearance: Scalar,
    m: ViaMeasures,
) -> bool {
    let found = findings(g, layers, net, clearance, m);
    &&& verdict.layers.deep_view() == layers
    &&& verdict.collisions@ == collisions_in(found)
    &&& verdict.zone_crossings@ == zone_crossings(g, layers, net, m)
    &&& verdict.all_required_geometry_supported == via_geometry_known(
        g,
        layers,
        verdict.zone_crossings@,
    )
    &&& verdict.globally_safe == (verdict.all_required_geometry_supported
        && verdict.collisions@.len() == 0)
    &&& verdict.minimum_clearance == (if least_gap(found).finite() {
        Some(least_gap(found))
    } else {
        None
    })
}

/// Whether a check is the one for a via.
pub open spec fn is_via_check(
    check: ViaCheck,
    g: RoutingView,
    net: Seq<char>,
    start: Seq<char>,
    end: Seq<char>,
    clearance: Scalar,
    m: ViaMeasures,
) -> bool {
    if !g.layers.available {
        check matches ViaCheck::LayersUnavailable { reason } && reason@ == reason_or(
            g.layers.reason,
            "IPC board layers unavailable"@,
        )
    } else {
        match traversed(g.layers.items, start, end) {
            None => check is LayerNotEnabled,
            Some(layers) => check matches ViaCheck::Checked(verdict) && is_via_verdict(
                verdict,
                g,
                layers,
                net,
                clearance,
                m,
            ),
        }
    }
}

/// Judges a via.
pub fn check_via_clearance(
    g: &IpcRoutingGeometry,
    net: &str,
    start_layer: &str,
    end_layer: &str,
    clearance: Scalar,
    m: &ViaMeasures,
) -> (r: ViaCheck)
    requires
        via_fits(*m, g.deep_view()),
    ensures
        is_via_check(r, g.deep_view(), net@, start_layer@, end_layer@, clearance, *m),
{
    if !g.layers.available {
        return ViaCheck::LayersUnavailable {
            reason: copy_reason(&g.layers.reason, "IPC board layers unavailable"),
        };
    }
    let layers = match traversed_layers(&g.layers.items, start_layer, end_layer) {
        None => {
            return ViaCheck::LayerNotEnabled;
        },
        Some(layers) => layers,
    };
    let (crossings, crossings_ok) = foreign_zone_crossings(g, &layers, net, m);
    let found = find_all(g, &layers, net, clearance, m);
    let (collisions, minimum) = sum_up(&found);
    let supported = g.tracks.available && g.pads.available && all_pads_known(
        &g.pads.items,
        &layers,
    ) && g.vias.available && g.board_edges.available && g.zones.available && crossings_ok;
    let globally_safe = supported && collisions.len() == 0;
    ViaCheck::Checked(
        ViaVerdict {
            layers,
            collisions,
            zone_crossings: crossings,
            all_required_geometry_supported: supported,
            globally_safe,
            minimum_clearance: if minimum.is_finite() {
                Some(minimum)
            } else {
                None
            },
        },
    )
}

// What a verdict promises.

/// Whether a check calls a via safe.
pub open spec fn calls_safe(check: ViaCheck) -> bool {
    check matches ViaCheck::Checked(verdict) && verdict.globally_safe
}

/// A safe via goes through copper layers of the board, collides with nothing on any of them,
/// and everything that bears on it was available.
pub proof fn a_safe_via_was_fully_checked(
    check: ViaCheck,
    g: RoutingView,
    net: Seq<char>,
    start: Seq<char>,
    end: Seq<char>,
    clearance: Scalar,
    m: ViaMeasures,
)
    requires
        is_via_check(check, g, net, start, end, clearance, m),
        calls_safe(check),
    ensures
        g.layers.available && traversed(g.layers.items, start, end) is Some,
        collisions_in(
            findings(g, traversed(g.layers.items, start, end)->Some_0, net, clearance, m),
        ).len() == 0,
        g.tracks.available,
        g.pads.available,
        g.vias.available,
        g.board_edges.available,
        g.zones.available,
        pads_known(g.pads.items, traversed(g.layers.items, start, end)->Some_0),
        crossings_supported(
            g,
            zone_crossings(g, traversed(g.layers.items, start, end)->Some_0, net, m),
        ),
{
}

proof fn lemma_finding_collides(found: Seq<Finding>, finding: Finding)
    requires
        found.contains(finding),
        finding.collision is Some,
    ensures
        collisions_in(found).len() > 0,
{
    let pick = |f: Finding|
        match f.collision {
            Some(c) => seq![c],
            None => Seq::empty(),
        };
    let f = choose|f: int| 0 <= f < found.len() && found[f] == finding;
    let collision = finding.collision->Some_0;
    assert(pick(found[f])[0] == collision);
    lemma_gather_contains(found, pick, f, collision);
}

/// What collides on one layer collides on all of them.
proof fn lemma_layer_collides(
    g: RoutingView,
    layers: Seq<Seq<char>>,
    net: Seq<char>,
    clearance: Scalar,
    m: ViaMeasures,
    k: int,
    finding: Finding,
)
    requires
        0 <= k < layers.len(),
        findings_on(g, k, layers[k], net, clearance, m).contains(finding),
        finding.collision is Some,
    ensures
        collisions_in(findings(g, layers, net, clearance, m)).len() > 0,
{
    let layer_pick = |k: int, layer: Seq<char>| findings_on(g, k, layer, net, clearance, m);
    lemma_gather_indexed_contains(layers, layer_pick, k, finding);
    let on_layers = gather_indexed(layers, layer_pick);
    let found = findings(g, layers, net, clearance, m);
    let f = choose|f: int| 0 <= f < on_layers.len() && on_layers[f] == finding;
    assert(found[f] == finding);
    lemma_finding_collides(found, finding);
}

/// No track of another net comes nearer to a safe via than it may, on any layer that the via
/// goes through.
pub proof fn a_safe_via_keeps_clear_of_tracks(
    check: ViaCheck,
    g: RoutingView,
    net: Seq<char>,
    start: Seq<char>,
    end: Seq<char>,
    clearance: Scalar,
    m: ViaMeasures,
    i: int,
)
    requires
        is_via_check(check, g, net, start, end, clearance, m),
        calls_safe(check),
        0 <= i < g.tracks.items.len(),
        g.tracks.items[i].net_name != net,
        traversed(g.layers.items, start, end)->Some_0.contains(g.tracks.items[i].layer),
    ensures
        !m.tracks@[i].below(clearance),
{
    if m.tracks@[i].below(clearance) {
        let layers = traversed(g.layers.items, start, end)->Some_0;
        let track = g.tracks.items[i];
        let k = choose|k: int| 0 <= k < layers.len() && layers[k] == track.layer;
        let pick = track_finding(k, layers[k], net, clearance, m.tracks@);
        let finding = pick(i, track)[0];
        lemma_gather_indexed_contains(g.tracks.items, pick, i, finding);
        let pads = gather_indexed(
            g.pads.items,
            pad_finding(k, layers[k], net, clearance, m.pads@),
        );
        let tracks = gather_indexed(g.tracks.items, pick);
        let t = choose|t: int| 0 <= t < tracks.len() && tracks[t] == finding;
        assert(findings_on(g, k, layers[k], net, clearance, m)[pads.len() + t] == finding);
        lemma_layer_collides(g, layers, net, clearance, m, k, finding);
    }
}

/// Every pad of another net on a layer that a safe via goes through has a known outline and
/// keeps its distance.
pub proof fn a_safe_via_keeps_clear_of_pads(
    check: ViaCheck,
    g: RoutingView,
    net: Seq<char>,
    start: Seq<char>,
    end: Seq<char>,
    clearance: Scalar,
    m: ViaMeasures,
    i: int,
    k: int,
)
    requires
        is_via_check(check, g, net, start, end, clearance, m),
        calls_safe(check),
        0 <= i < g.pads.items.len(),
        g.pads.items[i].net_name != net,
        0 <= k < traversed(g.layers.items, start, end)->Some_0.len(),
        lies_on(g.pads.items[i].layers, traversed(g.layers.items, start, end)->Some_0[k]),
    ensures
        outline_of(g.pads.items[i]) is Some,
        !m.pads@[i].below(clearance),
{
    let layers = traversed(g.layers.items, start, end)->Some_0;
    let pad = g.pads.items[i];
    if outline_of(pad) is None || m.pads@[i].below(clearance) {
        let pick = pad_finding(k, layers[k], net, clearance, m.pads@);
        let finding = pick(i, pad)[0];
        lemma_gather_indexed_contains(g.pads.items, pick, i, finding);
        let pads = gather_indexed(g.pads.items, pick);
        let t = choose|t: int| 0 <= t < pads.len() && pads[t] == finding;
        assert(findings_on(g, k, layers[k], net, clearance, m)[t] == finding);
        lemma_layer_collides(g, layers, net, clearance, m, k, finding);
    }
}

/// Every via of another net on a layer that a safe via goes through has a known size and
/// keeps its distance.
pub proof fn a_safe_via_keeps_clear_of_vias(
    check: ViaCheck,
    g: RoutingView,
    net: Seq<char>,
    start: Seq<char>,
    end: Seq<char>,
    clearance: Scalar,
    m: ViaMeasures,
    i: int,
    k: int,
)
    requires
        is_via_check(check, g, net, start, end, clearance, m),
        calls_safe(check),
        0 <= i < g.vias.items.len(),
        g.vias.items[i].net_name != net,
        0 <= k < traversed(g.layers.items, start, end)->Some_0.len(),
        lies_on(g.vias.items[i].layers, traversed(g.layers.items, start, end)->Some_0[k]),
    ensures
        g.vias.items[i].size is Some,
        !m.vias@[i].below(clearance),
{
    let layers = traversed(g.layers.items, start, end)->Some_0;
    let via = g.vias.items[i];
    if via.size is None || m.vias@[i].below(clearance) {
        let pick = via_finding(k, layers[k], net, clearance, m.vias@);
        let finding = pick(i, via)[0];
        lemma_gather_indexed_contains(g.vias.items, pick, i, finding);
        let pads = gather_indexed(
            g.pads.items,
            pad_finding(k, layers[k], net, clearance, m.pads@),
        );
        let tracks = gather_indexed(
            g.tracks.items,
            track_finding(k, layers[k], net, clearance, m.tracks@),
        );
        let vias = gather_indexed(g.vias.items, pick);
        let t = choose|t: int| 0 <= t < vias.len() && vias[t] == finding;
        assert(findings_on(g, k, layers[k], net, clearance, m)[pads.len() + tracks.len() + t]
            == finding);
        lemma_layer_collides(g, layers, net, clearance, m, k, finding);
    }
}

/// A safe via keeps its distance from every piece of the board's edge.
pub proof fn a_safe_via_keeps_clear_of_the_edge(
    check: ViaCheck,
    g: RoutingView,
    net: Seq<char>,
    start: Seq<char>,
    end: Seq<char>,
    clearance: Scalar,
    m: ViaMeasures,
    i: int,
)
    requires
        is_via_check(check, g, net, start, end, clearance, m),
        calls_safe(check),
        0 <= i < g.board_edges.items.len(),
    ensures
        !m.edges@[i].below(clearance),
{
    if m.edges@[i].below(clearance) {
        let layers = traversed(g.layers.items, start, end)->Some_0;
        let pick = edge_finding(clearance, m.edges@);
        let finding = pick(i, g.board_edges.items[i])[0];
        lemma_gather_indexed_contains(g.board_edges.items, pick, i, finding);
        let on_layers = gather_indexed(
            layers,
            |k: int, layer: Seq<char>| findings_on(g, k, layer, net, clearance, m),
        );
        let edges = gather_indexed(g.board_edges.items, pick);
        let t = choose|t: int| 0 <= t < edges.len() && edges[t] == finding;
        let found = findings(g, layers, net, clearance, m);
        assert(found[on_layers.len() + t] == finding);
        lemma_finding_collides(found, finding);
    }
}

/// Whether a finding has a gap that is a number.
pub open spec fn is_measured(finding: Finding) -> bool {
    finding.gap matches Some(gap) && !gap.not_a_number()
}

/// The least gap is a lower bound of all gaps that were measured.
pub proof fn the_least_gap_is_a_lower_bound(found: Seq<Finding>)
    ensures
        !least_gap(found).not_a_number(),
        forall|k: int|
            0 <= k < found.len() && is_measured(#[trigger] found[k]) ==> least_gap(found).at_most(
                found[k].gap->Some_0,
            ),
    decreases found.len(),
{
    if found.len() > 0 {
        the_least_gap_is_a_lower_bound(found.drop_last());
        assert forall|k: int|
            0 <= k < found.len() && is_measured(#[trigger] found[k]) implies least_gap(
            found,
        ).at_most(found[k].gap->Some_0) by {
            if k < found.len() - 1 {
                assert(found.drop_last()[k] == found[k]);
            }
        }
    }
}

} // verus!
