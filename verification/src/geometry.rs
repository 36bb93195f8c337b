//! What a board holds that a route has to mind.

use crate::board::{
    class_available, class_unavailable, ClassView, IpcBoardEdgeGeometry, IpcBoardExtents,
    IpcGeometryClass, IpcPadGeometry, IpcPolygonGeometry, IpcRoutingGeometry, IpcTrackArc,
    IpcViaGeometry, PadView, PolygonView, RoutingView, TrackArcView, ViaView,
};
use crate::envelope::KiCadIpcClient;
use crate::error::{headline, plain, CauseView, IpcError};
use crate::gather::{lemma_try_gather_fails, lemma_try_gather_step, optional, try_gather};
use crate::items::{
    as_child_shape, as_footprint, as_pad, as_shape, as_zone, board_footprints, child_shape_of,
    children_of,
    code_of_net, copy_field_text, copy_net_name, footprint_of, name_of_net, net_id, pad_of,
    shape_of, text_of_field, zone_of,
};
use crate::layers::{layer_enum_to_name, layer_name};
use crate::messages::{
    BoardGraphicShape, BoardLayer, ChildItem, Geometry, GraphicShape, Item, ItemKind, Pad,
    PadStack, PadStackLayer, PadStackShape, Zone, ZoneSettings,
};
use crate::scalar::{zero, zero_spec, Scalar};
use crate::session::{board_extents, board_layers, items_of, or_origin, vector_or_origin};
use crate::step::{judged, seen, Progress, Reply, Step};
use crate::text;
use crate::text::{copy_option, finishes_with, text_or_empty};
use crate::tracks::{
    board_tracks, copper_size, list_arcs, listed_arc, name_stack_layers, require_vias, required_via,
    stack_layers, stack_size,
};
use crate::zones::{
    copy_outlines, graphic_shape_points, optional_set_points, polyset_points, shape_points,
};
use vstd::prelude::*;
use vstd::string::*;

verus! {

// Pads.

pub open spec fn pad_shape_name(shape: PadStackShape) -> Seq<char> {
    match shape {
        PadStackShape::Unknown => "PssUnknown"@,
        PadStackShape::Circle => "PssCircle"@,
        PadStackShape::Rectangle => "PssRectangle"@,
        PadStackShape::Oval => "PssOval"@,
        PadStackShape::Trapezoid => "PssTrapezoid"@,
        PadStackShape::Roundrect => "PssRoundrect"@,
        PadStackShape::Chamferedrect => "PssChamferedrect"@,
        PadStackShape::Custom => "PssCustom"@,
        PadStackShape::Invalid => "PssUnknown"@,
    }
}

/// The name that the protocol has for a shape.
pub fn shape_name(shape: PadStackShape) -> (r: &'static str)
    ensures
        r@ == pad_shape_name(shape),
{
    match shape {
        PadStackShape::Unknown => "PssUnknown",
        PadStackShape::Circle => "PssCircle",
        PadStackShape::Rectangle => "PssRectangle",
        PadStackShape::Oval => "PssOval",
        PadStackShape::Trapezoid => "PssTrapezoid",
        PadStackShape::Roundrect => "PssRoundrect",
        PadStackShape::Chamferedrect => "PssChamferedrect",
        PadStackShape::Custom => "PssCustom",
        PadStackShape::Invalid => "PssUnknown",
    }
}

/// Whether the outline of a pad of this shape is known.
pub open spec fn has_known_outline(shape: PadStackShape) -> bool {
    shape is Circle || shape is Rectangle || shape is Oval || shape is Roundrect
}

fn knows_outline(shape: PadStackShape) -> (r: bool)
    ensures
        r == has_known_outline(shape),
{
    match shape {
        PadStackShape::Circle => true,
        PadStackShape::Rectangle => true,
        PadStackShape::Oval => true,
        PadStackShape::Roundrect => true,
        _ => false,
    }
}

/// Why a shape's outline is not known, where the shape is one that the protocol has.
pub open spec fn outline_reason(shape: PadStackShape) -> Option<Seq<char>> {
    if has_known_outline(shape) || shape is Invalid {
        None
    } else {
        Some("unsupported IPC pad shape: "@ + pad_shape_name(shape))
    }
}

fn explain_outline(shape: PadStackShape) -> (r: Option<String>)
    ensures
        r.deep_view() == outline_reason(shape),
{
    if knows_outline(shape) {
        return None;
    }
    match shape {
        PadStackShape::Invalid => None,
        _ => {
            let mut reason = "unsupported IPC pad shape: ".to_owned();
            reason.append(shape_name(shape));
            Some(reason)
        },
    }
}

/// The first copper layer of a pad stack.
pub open spec fn first_copper(stack: Option<PadStack>) -> Option<PadStackLayer> {
    match stack {
        Some(s) => if s.copper_layers@.len() == 0 {
            None
        } else {
            Some(s.copper_layers@[0])
        },
        None => None,
    }
}

fn copper_of(stack: &Option<PadStack>) -> (r: Option<&PadStackLayer>)
    ensures
        match r {
            Some(copper) => first_copper(*stack) == Some(*copper),
            None => first_copper(*stack) is None,
        },
{
    match stack {
        Some(s) => if s.copper_layers.len() == 0 {
            None
        } else {
            Some(&s.copper_layers[0])
        },
        None => None,
    }
}

pub open spec fn stack_angle(stack: Option<PadStack>) -> Scalar {
    match stack {
        Some(s) => match s.angle {
            Some(angle) => angle,
            None => zero_spec(),
        },
        None => zero_spec(),
    }
}

fn angle_of(stack: &Option<PadStack>) -> (r: Scalar)
    ensures
        r == stack_angle(*stack),
{
    match stack {
        Some(s) => match s.angle {
            Some(angle) => angle,
            None => zero(),
        },
        None => zero(),
    }
}

/// A pad as it is listed. Its shape is that of its first copper layer.
pub open spec fn pad_entry(pad: Pad, reference: Seq<char>) -> PadView {
    let copper = first_copper(pad.pad_stack);
    PadView {
        reference,
        number: pad.number@,
        position: vector_or_origin(pad.position),
        size: stack_size(pad.pad_stack),
        shape: match copper {
            Some(c) => Some(pad_shape_name(c.shape)),
            None => None,
        },
        rotation: stack_angle(pad.pad_stack),
        corner_rounding_ratio: match copper {
            Some(c) => Some(c.corner_rounding_ratio),
            None => None,
        },
        geometry_supported: copper matches Some(c) && has_known_outline(c.shape),
        geometry_reason: match copper {
            Some(c) => outline_reason(c.shape),
            None => None,
        },
        layers: stack_layers(pad.pad_stack),
        net_name: name_of_net(pad.net),
        net_id: code_of_net(pad.net),
    }
}

fn list_pad(pad: &Pad, reference: &String) -> (r: IpcPadGeometry)
    ensures
        r.deep_view() == pad_entry(*pad, reference@),
{
    let copper = copper_of(&pad.pad_stack);
    IpcPadGeometry {
        reference: reference.clone(),
        number: pad.number.clone(),
        position: or_origin(pad.position),
        size: copper_size(&pad.pad_stack),
        shape: match copper {
            Some(c) => Some(shape_name(c.shape).to_owned()),
            None => None,
        },
        rotation: angle_of(&pad.pad_stack),
        corner_rounding_ratio: match copper {
            Some(c) => Some(c.corner_rounding_ratio),
            None => None,
        },
        geometry_supported: match copper {
            Some(c) => knows_outline(c.shape),
            None => false,
        },
        geometry_reason: match copper {
            Some(c) => explain_outline(c.shape),
            None => None,
        },
        layers: name_stack_layers(&pad.pad_stack),
        net_name: copy_net_name(&pad.net),
        net_id: net_id(&pad.net),
    }
}

// Courtyards.

pub open spec fn is_courtyard_layer(layer: BoardLayer) -> bool {
    layer is FCrtYd || layer is BCrtYd
}

/// A shape as a courtyard outline, where it lies on a courtyard layer and has straight lines.
pub open spec fn courtyard_entry(shape: BoardGraphicShape, reference: Seq<char>) -> Option<
    PolygonView,
> {
    if !is_courtyard_layer(shape.layer) {
        None
    } else {
        match shape_points(shape.shape) {
            Some(points) => Some(
                PolygonView {
                    object_type: "courtyard"@,
                    reference: Some(reference),
                    layer: layer_name(shape.layer),
                    net_name: None,
                    net_id: None,
                    polygons: seq![points],
                },
            ),
            None => None,
        }
    }
}

fn list_courtyard(shape: &BoardGraphicShape, reference: &String) -> (r: Option<IpcPolygonGeometry>)
    ensures
        r.deep_view() == courtyard_entry(*shape, reference@),
{
    match shape.layer {
        BoardLayer::FCrtYd => {},
        BoardLayer::BCrtYd => {},
        _ => {
            return None;
        },
    }
    match graphic_shape_points(&shape.shape) {
        Some(points) => {
            let ghost view = points.deep_view();
            let polygons = vec![points];
            assert(polygons.deep_view() == seq![view]);
            Some(
                IpcPolygonGeometry {
                    object_type: "courtyard".to_owned(),
                    reference: Some(reference.clone()),
                    layer: layer_enum_to_name(shape.layer).to_owned(),
                    net_name: None,
                    net_id: None,
                    polygons,
                },
            )
        },
        None => None,
    }
}

// Footprints.

/// A footprint's child, as far as it matters here.
pub enum Part {
    Pad(Pad),
    Shape(BoardGraphicShape),
    Other,
}

/// What a child is, or why it cannot be read.
pub open spec fn part_of(child: ChildItem) -> Result<Part, Seq<CauseView>> {
    if finishes_with(child.type_url@, ".Pad"@) {
        match as_pad(child) {
            Ok(pad) => Ok(Part::Pad(pad)),
            Err(e) => Err(e),
        }
    } else if finishes_with(child.type_url@, ".BoardGraphicShape"@) {
        match as_child_shape(child) {
            Ok(shape) => Ok(Part::Shape(shape)),
            Err(e) => Err(e),
        }
    } else {
        Ok(Part::Other)
    }
}

pub open spec fn child_pad(reference: Seq<char>) -> spec_fn(ChildItem) -> Result<
    Seq<PadView>,
    Seq<CauseView>,
> {
    |child: ChildItem|
        match part_of(child) {
            Err(e) => Err(e),
            Ok(Part::Pad(pad)) => Ok(seq![pad_entry(pad, reference)]),
            Ok(_) => Ok(Seq::empty()),
        }
}

pub open spec fn child_courtyard(reference: Seq<char>) -> spec_fn(ChildItem) -> Result<
    Seq<PolygonView>,
    Seq<CauseView>,
> {
    |child: ChildItem|
        match part_of(child) {
            Err(e) => Err(e),
            Ok(Part::Shape(shape)) => Ok(optional(courtyard_entry(shape, reference))),
            Ok(_) => Ok(Seq::empty()),
        }
}

/// The pads of a footprint. A child that cannot be read fails the whole.
pub open spec fn footprint_pads(item: Item) -> Result<Seq<PadView>, Seq<CauseView>> {
    match as_footprint(item) {
        Err(e) => Err(e),
        Ok(fp) => try_gather(
            children_of(fp),
            child_pad(text_or_empty(text_of_field(fp.reference_field))),
        ),
    }
}

/// The courtyards of a footprint. A child that cannot be read fails the whole.
pub open spec fn footprint_courtyards(item: Item) -> Result<Seq<PolygonView>, Seq<CauseView>> {
    match as_footprint(item) {
        Err(e) => Err(e),
        Ok(fp) => try_gather(
            children_of(fp),
            child_courtyard(text_or_empty(text_of_field(fp.reference_field))),
        ),
    }
}

pub open spec fn all_pads(items: Seq<Item>) -> Result<Seq<PadView>, Seq<CauseView>> {
    try_gather(items, |item: Item| footprint_pads(item))
}

pub open spec fn all_courtyards(items: Seq<Item>) -> Result<Seq<PolygonView>, Seq<CauseView>> {
    try_gather(items, |item: Item| footprint_courtyards(item))
}

/// Pads and courtyards, which are read together.
type PadsAndCourtyards = (Vec<IpcPadGeometry>, Vec<IpcPolygonGeometry>);

/// Whether a result is that of both lists.
spec fn both(
    r: Result<PadsAndCourtyards, IpcError>,
    pads: Result<Seq<PadView>, Seq<CauseView>>,
    courtyards: Result<Seq<PolygonView>, Seq<CauseView>>,
) -> bool {
    match r {
        Ok(found) => pads == Ok::<Seq<PadView>, Seq<CauseView>>(found.0.deep_view()) && courtyards
            == Ok::<Seq<PolygonView>, Seq<CauseView>>(found.1.deep_view()),
        Err(e) => pads == Err::<Seq<PadView>, Seq<CauseView>>(e.deep_view()) && courtyards == Err::<
            Seq<PolygonView>,
            Seq<CauseView>,
        >(e.deep_view()),
    }
}

fn list_children(children: &Vec<ChildItem>, reference: &String) -> (r: Result<
    PadsAndCourtyards,
    IpcError,
>)
    ensures
        both(
            r,
            try_gather(children@, child_pad(reference@)),
            try_gather(children@, child_courtyard(reference@)),
        ),
{
    let ghost all = children@;
    let ghost pick_pad = child_pad(reference@);
    let ghost pick_courtyard = child_courtyard(reference@);
    let mut pads: Vec<IpcPadGeometry> = Vec::new();
    let mut courtyards: Vec<IpcPolygonGeometry> = Vec::new();
    let mut i: usize = 0;
    assert(pads.deep_view() == Seq::<PadView>::empty());
    assert(courtyards.deep_view() == Seq::<PolygonView>::empty());
    while i < children.len()
        invariant
            i <= children@.len(),
            all == children@,
            pick_pad == child_pad(reference@),
            pick_courtyard == child_courtyard(reference@),
            try_gather(all.take(i as int), pick_pad) == Ok::<Seq<PadView>, Seq<CauseView>>(
                pads.deep_view(),
            ),
            try_gather(all.take(i as int), pick_courtyard) == Ok::<
                Seq<PolygonView>,
                Seq<CauseView>,
            >(courtyards.deep_view()),
        decreases children@.len() - i,
    {
        let child = &children[i];
        let ghost pads_before = pads.deep_view();
        let ghost courtyards_before = courtyards.deep_view();
        proof {
            lemma_try_gather_step(all, pick_pad, i as int);
            lemma_try_gather_step(all, pick_courtyard, i as int);
            assert(pads_before + Seq::<PadView>::empty() == pads_before);
            assert(courtyards_before + Seq::<PolygonView>::empty() == courtyards_before);
        }
        if text::ends_with(child.type_url.as_str(), ".Pad") {
            match pad_of(child) {
                Err(e) => {
                    proof {
                        lemma_try_gather_fails(all, pick_pad, i + 1);
                        lemma_try_gather_fails(all, pick_courtyard, i + 1);
                    }
                    return Err(e);
                },
                Ok(pad) => {
                    let entry = list_pad(pad, reference);
                    pads.push(entry);
                    assert(pads.deep_view() == pads_before + seq![entry.deep_view()]);
                },
            }
        } else if text::ends_with(child.type_url.as_str(), ".BoardGraphicShape") {
            match child_shape_of(child) {
                Err(e) => {
                    proof {
                        lemma_try_gather_fails(all, pick_pad, i + 1);
                        lemma_try_gather_fails(all, pick_courtyard, i + 1);
                    }
                    return Err(e);
                },
                Ok(shape) => {
                    if let Some(entry) = list_courtyard(shape, reference) {
                        let ghost view = entry.deep_view();
                        courtyards.push(entry);
                        assert(courtyards.deep_view() == courtyards_before + seq![view]);
                    }
                },
            }
        }
        i += 1;
    }
    assert(all.take(all.len() as int) == all);
    Ok((pads, courtyards))
}

fn list_footprint_parts(item: &Item) -> (r: Result<PadsAndCourtyards, IpcError>)
    ensures
        both(r, footprint_pads(*item), footprint_courtyards(*item)),
{
    let fp = match footprint_of(item) {
        Err(e) => {
            return Err(e);
        },
        Ok(fp) => fp,
    };
    let reference = copy_field_text(&fp.reference_field);
    match &fp.definition {
        Some(definition) => list_children(&definition.items, &reference),
        None => {
            let pads: Vec<IpcPadGeometry> = Vec::new();
            let courtyards: Vec<IpcPolygonGeometry> = Vec::new();
            assert(pads.deep_view() == Seq::<PadView>::empty());
            assert(courtyards.deep_view() == Seq::<PolygonView>::empty());
            Ok((pads, courtyards))
        },
    }
}

/// The pads and the courtyards of all footprints.
fn list_parts(items: &Vec<&Item>) -> (r: Result<PadsAndCourtyards, IpcError>)
    ensures
        both(r, all_pads(items.deep_view()), all_courtyards(items.deep_view())),
{
    let ghost all = items.deep_view();
    let ghost pick_pads = |item: Item| footprint_pads(item);
    let ghost pick_courtyards = |item: Item| footprint_courtyards(item);
    let mut pads: Vec<IpcPadGeometry> = Vec::new();
    let mut courtyards: Vec<IpcPolygonGeometry> = Vec::new();
    let mut i: usize = 0;
    assert(pads.deep_view() == Seq::<PadView>::empty());
    assert(courtyards.deep_view() == Seq::<PolygonView>::empty());
    while i < items.len()
        invariant
            i <= items@.len(),
            all == items.deep_view(),
            pick_pads == (|item: Item| footprint_pads(item)),
            pick_courtyards == (|item: Item| footprint_courtyards(item)),
            try_gather(all.take(i as int), pick_pads) == Ok::<Seq<PadView>, Seq<CauseView>>(
                pads.deep_view(),
            ),
            try_gather(all.take(i as int), pick_courtyards) == Ok::<
                Seq<PolygonView>,
                Seq<CauseView>,
            >(courtyards.deep_view()),
        decreases items@.len() - i,
    {
        let ghost pads_before = pads.deep_view();
        let ghost courtyards_before = courtyards.deep_view();
        proof {
            assert(all[i as int] == *items@[i as int]);
            lemma_try_gather_step(all, pick_pads, i as int);
            lemma_try_gather_step(all, pick_courtyards, i as int);
        }
        match list_footprint_parts(items[i]) {
            Err(e) => {
                proof {
                    lemma_try_gather_fails(all, pick_pads, i + 1);
                    lemma_try_gather_fails(all, pick_courtyards, i + 1);
                }
                return Err(e);
            },
            Ok(found) => {
                let (mut own_pads, mut own_courtyards) = found;
                let ghost pad_views = own_pads.deep_view();
                let ghost courtyard_views = own_courtyards.deep_view();
                pads.append(&mut own_pads);
                courtyards.append(&mut own_courtyards);
                assert(pads.deep_view() == pads_before + pad_views);
                assert(courtyards.deep_view() == courtyards_before + courtyard_views);
            },
        }
        i += 1;
    }
    assert(all.take(all.len() as int) == all);
    Ok((pads, courtyards))
}

// Zones.

pub open spec fn zone_net(zone: Zone) -> (Option<Seq<char>>, Option<i32>) {
    match zone.settings {
        Some(ZoneSettings::Copper { net }) => (Some(name_of_net(net)), Some(code_of_net(net))),
        _ => (None, None),
    }
}

/// The outline of a zone on one of its layers.
pub open spec fn zone_entry(zone: Zone, layer: BoardLayer) -> PolygonView {
    PolygonView {
        object_type: "zone_outline"@,
        reference: None,
        layer: layer_name(layer),
        net_name: zone_net(zone).0,
        net_id: zone_net(zone).1,
        polygons: optional_set_points(zone.outline),
    }
}

/// The outlines of a zone, one for each of its layers.
pub open spec fn zone_outlines(item: Item) -> Result<Seq<PolygonView>, Seq<CauseView>> {
    match as_zone(item) {
        Err(e) => Err(e),
        Ok(zone) => Ok(
            Seq::new(zone.layers@.len(), |i: int| zone_entry(zone, zone.layers@[i])),
        ),
    }
}

fn outline_zone(zone: &Zone) -> (r: Vec<IpcPolygonGeometry>)
    ensures
        r.deep_view() == Seq::new(
            zone.layers@.len(),
            |i: int| zone_entry(*zone, zone.layers@[i]),
        ),
{
    let (name, code) = match &zone.settings {
        Some(ZoneSettings::Copper { net }) => (Some(copy_net_name(net)), Some(net_id(net))),
        _ => (None, None),
    };
    let polygons = polyset_points(&zone.outline);
    let mut out: Vec<IpcPolygonGeometry> = Vec::new();
    let mut i: usize = 0;
    while i < zone.layers.len()
        invariant
            i <= zone.layers@.len(),
            name.deep_view() == zone_net(*zone).0,
            code == zone_net(*zone).1,
            polygons.deep_view() == optional_set_points(zone.outline),
            out@.len() == i,
            forall|j: int|
                0 <= j < i ==> (#[trigger] out@[j]).deep_view() == zone_entry(
                    *zone,
                    zone.layers@[j],
                ),
        decreases zone.layers@.len() - i,
    {
        out.push(
            IpcPolygonGeometry {
                object_type: "zone_outline".to_owned(),
                reference: None,
                layer: layer_enum_to_name(zone.layers[i]).to_owned(),
                net_name: copy_option(&name),
                net_id: code,
                polygons: copy_outlines(&polygons),
            },
        );
        i += 1;
    }
    assert(out.deep_view() =~= Seq::new(
        zone.layers@.len(),
        |i: int| zone_entry(*zone, zone.layers@[i]),
    ));
    out
}

fn list_zones(items: &Vec<&Item>) -> (r: Result<Vec<IpcPolygonGeometry>, IpcError>)
    ensures
        seen(r) == try_gather(items.deep_view(), |item: Item| zone_outlines(item)),
{
    let ghost all = items.deep_view();
    let ghost pick = |item: Item| zone_outlines(item);
    let mut out: Vec<IpcPolygonGeometry> = Vec::new();
    let mut i: usize = 0;
    assert(out.deep_view() == Seq::<PolygonView>::empty());
    while i < items.len()
        invariant
            i <= items@.len(),
            all == items.deep_view(),
            pick == (|item: Item| zone_outlines(item)),
            try_gather(all.take(i as int), pick) == Ok::<Seq<PolygonView>, Seq<CauseView>>(
                out.deep_view(),
            ),
        decreases items@.len() - i,
    {
        proof {
            assert(all[i as int] == *items@[i as int]);
            lemma_try_gather_step(all, pick, i as int);
        }
        match zone_of(items[i]) {
            Err(e) => {
                proof {
                    lemma_try_gather_fails(all, pick, i + 1);
                }
                return Err(e);
            },
            Ok(zone) => {
                let ghost before = out.deep_view();
                let mut outlines = outline_zone(zone);
                let ghost views = outlines.deep_view();
                out.append(&mut outlines);
                assert(out.deep_view() == before + views);
            },
        }
        i += 1;
    }
    assert(all.take(all.len() as int) == all);
    Ok(out)
}

// The board's edge.

pub open spec fn unsupported_edge_text() -> Seq<char> {
    "unsupported Edge.Cuts primitive returned by KiCad IPC"@
}

pub open spec fn missing_edge_text() -> Seq<char> {
    "Edge.Cuts item has no IPC geometry"@
}

pub open spec fn geometry_of(shape: Option<GraphicShape>) -> Option<Geometry> {
    match shape {
        Some(s) => s.geometry,
        None => None,
    }
}

/// The piece of the board's edge that a shape is. A line or an arc that lacks a point is
/// passed over; any other shape on the edge layer fails.
pub open spec fn edge_piece(shape: BoardGraphicShape) -> Result<
    Seq<IpcBoardEdgeGeometry>,
    Seq<CauseView>,
> {
    if !(shape.layer is EdgeCuts) {
        Ok(Seq::empty())
    } else {
        match geometry_of(shape.shape) {
            Some(Geometry::Segment { start: Some(start), end: Some(end) }) => Ok(
                seq![IpcBoardEdgeGeometry::Line { start, end }],
            ),
            Some(Geometry::Segment { .. }) => Ok(Seq::empty()),
            Some(
                Geometry::Arc { start: Some(start), mid: Some(mid), end: Some(end) },
            ) => Ok(seq![IpcBoardEdgeGeometry::Arc { start, mid, end }]),
            Some(Geometry::Arc { .. }) => Ok(Seq::empty()),
            Some(_) => Err(plain(unsupported_edge_text())),
            None => Err(plain(missing_edge_text())),
        }
    }
}

pub open spec fn listed_edge(item: Item) -> Result<Seq<IpcBoardEdgeGeometry>, Seq<CauseView>> {
    match as_shape(item) {
        Err(e) => Err(e),
        Ok(shape) => edge_piece(shape),
    }
}

fn list_edge(shape: &BoardGraphicShape) -> (r: Result<Option<IpcBoardEdgeGeometry>, IpcError>)
    ensures
        match r {
            Ok(piece) => edge_piece(*shape) == Ok::<Seq<IpcBoardEdgeGeometry>, Seq<CauseView>>(
                optional(piece),
            ),
            Err(e) => edge_piece(*shape) == Err::<Seq<IpcBoardEdgeGeometry>, Seq<CauseView>>(
                e.deep_view(),
            ),
        },
{
    match shape.layer {
        BoardLayer::EdgeCuts => {},
        _ => {
            return Ok(None);
        },
    }
    let geometry = match &shape.shape {
        Some(s) => &s.geometry,
        None => {
            return Err(IpcError::say("Edge.Cuts item has no IPC geometry"));
        },
    };
    match geometry {
        Some(Geometry::Segment { start: Some(start), end: Some(end) }) => Ok(
            Some(IpcBoardEdgeGeometry::Line { start: *start, end: *end }),
        ),
        Some(Geometry::Segment { .. }) => Ok(None),
        Some(Geometry::Arc { start: Some(start), mid: Some(mid), end: Some(end) }) => Ok(
            Some(IpcBoardEdgeGeometry::Arc { start: *start, mid: *mid, end: *end }),
        ),
        Some(Geometry::Arc { .. }) => Ok(None),
        Some(_) => Err(IpcError::say("unsupported Edge.Cuts primitive returned by KiCad IPC")),
        None => Err(IpcError::say("Edge.Cuts item has no IPC geometry")),
    }
}

fn list_edges(items: &Vec<&Item>) -> (r: Result<Vec<IpcBoardEdgeGeometry>, IpcError>)
    ensures
        seen(r) == try_gather(items.deep_view(), |item: Item| listed_edge(item)),
{
    let ghost all = items.deep_view();
    let ghost pick = |item: Item| listed_edge(item);
    let mut out: Vec<IpcBoardEdgeGeometry> = Vec::new();
    let mut i: usize = 0;
    assert(out.deep_view() == Seq::<IpcBoardEdgeGeometry>::empty());
    while i < items.len()
        invariant
            i <= items@.len(),
            all == items.deep_view(),
            pick == (|item: Item| listed_edge(item)),
            try_gather(all.take(i as int), pick) == Ok::<Seq<IpcBoardEdgeGeometry>, Seq<CauseView>>(
                out.deep_view(),
            ),
        decreases items@.len() - i,
    {
        proof {
            assert(all[i as int] == *items@[i as int]);
            lemma_try_gather_step(all, pick, i as int);
        }
        let shape = match shape_of(items[i]) {
            Err(e) => {
                proof {
                    lemma_try_gather_fails(all, pick, i + 1);
                }
                return Err(e);
            },
            Ok(shape) => shape,
        };
        let ghost before = out.deep_view();
        match list_edge(shape) {
            Err(e) => {
                proof {
                    lemma_try_gather_fails(all, pick, i + 1);
                }
                return Err(e);
            },
            Ok(Some(piece)) => {
                out.push(piece);
                assert(out.deep_view() == before + seq![piece]);
            },
            Ok(None) => {
                assert(before + Seq::<IpcBoardEdgeGeometry>::empty() == before);
            },
        }
        i += 1;
    }
    assert(all.take(all.len() as int) == all);
    Ok(out)
}

// The whole.

/// A class for a result: its items, or the outermost reason why there are none.
pub open spec fn class_of<V>(result: Result<V, Seq<CauseView>>, nothing: V) -> ClassView<V> {
    match result {
        Ok(items) => class_available(items),
        Err(error) => class_unavailable(nothing, headline(error)),
    }
}

/// As `class_of`, for a list.
pub open spec fn list_class<V>(result: Result<Seq<V>, Seq<CauseView>>) -> ClassView<Seq<V>> {
    class_of(result, Seq::empty())
}

pub open spec fn extents_class(result: Result<IpcBoardExtents, Seq<CauseView>>) -> ClassView<
    Option<IpcBoardExtents>,
> {
    match result {
        Ok(extents) => class_available(Some(extents)),
        Err(error) => class_unavailable(None, headline(error)),
    }
}

fn to_class<T: DeepView>(result: Result<Vec<T>, IpcError>) -> (r: IpcGeometryClass<Vec<T>>)
    ensures
        r.deep_view() == list_class(seen(result)),
{
    match result {
        Ok(items) => IpcGeometryClass::available(items),
        Err(error) => {
            let class: IpcGeometryClass<Vec<T>> = IpcGeometryClass::unavailable(
                error.describe().as_str(),
            );
            assert(class.items.deep_view() == Seq::<T::V>::empty());
            class
        },
    }
}

#[verifier::opaque]
pub open spec fn arcs_of<'a>(replies: Seq<Reply>, at: int) -> Progress<
    'a,
    Seq<TrackArcView>,
> {
    judged(
        items_of(ItemKind::Arc, replies, at),
        |items: Seq<Item>| try_gather(items, |item: Item| listed_arc(item)),
    )
}

#[verifier::opaque]
pub open spec fn pads_of<'a>(replies: Seq<Reply>, at: int) -> Progress<'a, Seq<PadView>> {
    judged(items_of(ItemKind::Footprint, replies, at), |items: Seq<Item>| all_pads(items))
}

#[verifier::opaque]
pub open spec fn courtyards_of<'a>(replies: Seq<Reply>, at: int) -> Progress<'a, Seq<PolygonView>> {
    judged(items_of(ItemKind::Footprint, replies, at), |items: Seq<Item>| all_courtyards(items))
}

#[verifier::opaque]
pub open spec fn vias_of<'a>(replies: Seq<Reply>, at: int) -> Progress<
    'a,
    Seq<ViaView>,
> {
    judged(
        items_of(ItemKind::Via, replies, at),
        |items: Seq<Item>| try_gather(items, |item: Item| required_via(item)),
    )
}

#[verifier::opaque]
pub open spec fn zones_of<'a>(replies: Seq<Reply>, at: int) -> Progress<'a, Seq<PolygonView>> {
    judged(
        items_of(ItemKind::Zone, replies, at),
        |items: Seq<Item>| try_gather(items, |item: Item| zone_outlines(item)),
    )
}

#[verifier::opaque]
pub open spec fn edges_of<'a>(replies: Seq<Reply>, at: int) -> Progress<
    'a,
    Seq<IpcBoardEdgeGeometry>,
> {
    judged(
        items_of(ItemKind::Shape, replies, at),
        |items: Seq<Item>| try_gather(items, |item: Item| listed_edge(item)),
    )
}

/// How far an operation has come in the replies.
pub open spec fn end_of<'a, V>(p: Progress<'a, V>) -> int {
    match p {
        Progress::Next(_) => 0,
        Progress::Done(_, used) => used,
    }
}

/// How an operation ended.
pub open spec fn outcome_of<'a, V>(p: Progress<'a, V>) -> Result<V, Seq<CauseView>> {
    match p {
        Progress::Next(_) => Err(Seq::empty()),
        Progress::Done(result, _) => result,
    }
}

/// The classes of routing geometry, asked for one after another. A class that fails says
/// why, and the others are asked for all the same.
pub open spec fn routing_geometry<'a>(replies: Seq<Reply>, at: int) -> Progress<'a, RoutingView> {
    let footprints = board_footprints(replies, at);
    let tracks = board_tracks(None, None, replies, end_of(footprints));
    let arcs = arcs_of(replies, end_of(tracks));
    let pads = pads_of(replies, end_of(arcs));
    let courtyards = courtyards_of(replies, end_of(arcs));
    let vias = vias_of(replies, end_of(pads));
    let zones = zones_of(replies, end_of(vias));
    let edges = edges_of(replies, end_of(zones));
    let layers = board_layers(replies, end_of(edges));
    let extents = board_extents(replies, end_of(layers));
    if let Progress::Next(task) = footprints {
        Progress::Next(task)
    } else if let Progress::Next(task) = tracks {
        Progress::Next(task)
    } else if let Progress::Next(task) = arcs {
        Progress::Next(task)
    } else if let Progress::Next(task) = pads {
        Progress::Next(task)
    } else if let Progress::Next(task) = vias {
        Progress::Next(task)
    } else if let Progress::Next(task) = zones {
        Progress::Next(task)
    } else if let Progress::Next(task) = edges {
        Progress::Next(task)
    } else if let Progress::Next(task) = layers {
        Progress::Next(task)
    } else if let Progress::Next(task) = extents {
        Progress::Next(task)
    } else {
        Progress::Done(
            Ok(
                RoutingView {
                    layers: list_class(outcome_of(layers)),
                    board_extents: extents_class(outcome_of(extents)),
                    footprints: list_class(outcome_of(footprints)),
                    pads: list_class(outcome_of(pads)),
                    tracks: list_class(outcome_of(tracks)),
                    track_arcs: list_class(outcome_of(arcs)),
                    vias: list_class(outcome_of(vias)),
                    courtyards: list_class(outcome_of(courtyards)),
                    zones: list_class(outcome_of(zones)),
                    board_edges: list_class(outcome_of(edges)),
                },
            ),
            end_of(extents),
        )
    }
}

impl KiCadIpcClient {
    fn routing_arcs<'a>(&self, replies: &'a Vec<Reply>, at: usize) -> (r: Step<
        'a,
        Vec<IpcTrackArc>,
    >)
        ensures
            r.deep_view() == arcs_of(replies@, at as int),
    {
        proof {
            reveal(arcs_of);
        }
        match self.get_items(ItemKind::Arc, replies, at) {
            Step::Next(task) => Step::Next(task),
            Step::Done(Err(error), used) => Step::Done(Err(error), used),
            Step::Done(Ok(items), used) => Step::Done(list_arcs(&items), used),
        }
    }

    fn routing_vias<'a>(&self, replies: &'a Vec<Reply>, at: usize) -> (r: Step<
        'a,
        Vec<IpcViaGeometry>,
    >)
        ensures
            r.deep_view() == vias_of(replies@, at as int),
    {
        proof {
            reveal(vias_of);
        }
        match self.get_items(ItemKind::Via, replies, at) {
            Step::Next(task) => Step::Next(task),
            Step::Done(Err(error), used) => Step::Done(Err(error), used),
            Step::Done(Ok(items), used) => Step::Done(require_vias(&items), used),
        }
    }

    fn routing_zones<'a>(&self, replies: &'a Vec<Reply>, at: usize) -> (r: Step<
        'a,
        Vec<IpcPolygonGeometry>,
    >)
        ensures
            r.deep_view() == zones_of(replies@, at as int),
    {
        proof {
            reveal(zones_of);
        }
        match self.get_items(ItemKind::Zone, replies, at) {
            Step::Next(task) => Step::Next(task),
            Step::Done(Err(error), used) => Step::Done(Err(error), used),
            Step::Done(Ok(items), used) => Step::Done(list_zones(&items), used),
        }
    }

    fn routing_edges<'a>(&self, replies: &'a Vec<Reply>, at: usize) -> (r: Step<
        'a,
        Vec<IpcBoardEdgeGeometry>,
    >)
        ensures
            r.deep_view() == edges_of(replies@, at as int),
    {
        proof {
            reveal(edges_of);
        }
        match self.get_items(ItemKind::Shape, replies, at) {
            Step::Next(task) => Step::Next(task),
            Step::Done(Err(error), used) => Step::Done(Err(error), used),
            Step::Done(Ok(items), used) => Step::Done(list_edges(&items), used),
        }
    }

    fn routing_parts<'a>(&self, replies: &'a Vec<Reply>, at: usize) -> (r: Step<
        'a,
        (IpcGeometryClass<Vec<IpcPadGeometry>>, IpcGeometryClass<Vec<IpcPolygonGeometry>>),
    >)
        ensures
            match r {
                Step::Next(task) => pads_of(replies@, at as int) == Progress::Next::<
                    Seq<PadView>,
                >(task),
                Step::Done(Ok(found), used) => {
                    &&& pads_of(replies@, at as int) matches Progress::Done(pads, pads_used)
                    &&& courtyards_of(replies@, at as int) matches Progress::Done(courtyards, _)
                    &&& pads_used == used
                    &&& found.0.deep_view() == list_class(pads)
                    &&& found.1.deep_view() == list_class(courtyards)
                },
                Step::Done(Err(_), _) => false,
            },
    {
        proof {
            reveal(pads_of);
            reveal(courtyards_of);
        }
        let (parts, used) = match self.get_items(ItemKind::Footprint, replies, at) {
            Step::Next(task) => {
                return Step::Next(task);
            },
            Step::Done(Err(error), used) => (Err(error), used),
            Step::Done(Ok(items), used) => (list_parts(&items), used),
        };
        match parts {
            Ok(found) => Step::Done(Ok((to_class(Ok(found.0)), to_class(Ok(found.1)))), used),
            Err(error) => Step::Done(
                Ok((to_class(Err(error.copy())), to_class(Err(error)))),
                used,
            ),
        }
    }

    /// What the board holds that a route has to mind. A class that cannot be had is marked as
    /// unavailable with the reason, and is then not to be taken for an empty one.
    #[verifier::rlimit(20)]
    pub fn get_routing_geometry<'a>(&self, replies: &'a Vec<Reply>, at: usize) -> (r: Step<
        'a,
        IpcRoutingGeometry,
    >)
        ensures
            r.deep_view() == routing_geometry(replies@, at as int),
    {
        let (footprints, at2) = match self.list_footprints(replies, at) {
            Step::Next(task) => {
                return Step::Next(task);
            },
            Step::Done(result, used) => (to_class(result), used),
        };
        let (tracks, at3) = match self.get_tracks(None, None, replies, at2) {
            Step::Next(task) => {
                return Step::Next(task);
            },
            Step::Done(result, used) => (to_class(result), used),
        };
        let (track_arcs, at4) = match self.routing_arcs(replies, at3) {
            Step::Next(task) => {
                return Step::Next(task);
            },
            Step::Done(result, used) => (to_class(result), used),
        };
        let (pads, courtyards, at5) = match self.routing_parts(replies, at4) {
            Step::Next(task) => {
                return Step::Next(task);
            },
            Step::Done(Err(error), used) => {
                return Step::Done(Err(error), used);
            },
            Step::Done(Ok(found), used) => (found.0, found.1, used),
        };
        let (vias, at6) = match self.routing_vias(replies, at5) {
            Step::Next(task) => {
                return Step::Next(task);
            },
            Step::Done(result, used) => (to_class(result), used),
        };
        let (zones, at7) = match self.routing_zones(replies, at6) {
            Step::Next(task) => {
                return Step::Next(task);
            },
            Step::Done(result, used) => (to_class(result), used),
        };
        let (board_edges, at8) = match self.routing_edges(replies, at7) {
            Step::Next(task) => {
                return Step::Next(task);
            },
            Step::Done(result, used) => (to_class(result), used),
        };
        let (layers, at9) = match self.get_layers(replies, at8) {
            Step::Next(task) => {
                return Step::Next(task);
            },
            Step::Done(result, used) => (to_class(result), used),
        };
        let (board_extents, at10) = match self.get_board_extents(replies, at9) {
            Step::Next(task) => {
                return Step::Next(task);
            },
            Step::Done(Ok(extents), used) => (
                IpcGeometryClass { available: true, items: Some(extents), reason: None },
                used,
            ),
            Step::Done(Err(error), used) => (
                IpcGeometryClass { available: false, items: None, reason: Some(error.describe()) },
                used,
            ),
        };
        Step::Done(
            Ok(
                IpcRoutingGeometry {
                    layers,
                    board_extents,
                    footprints,
                    pads,
                    tracks,
                    track_arcs,
                    vias,
                    courtyards,
                    zones,
                    board_edges,
                },
            ),
            at10,
        )
    }
}

/// Whether a class holds together: it has a reason exactly where it is not available.
pub open spec fn class_is_sound<V>(class: ClassView<V>) -> bool {
    class.available == (class.reason is None)
}

/// Routing geometry never fails as a whole, and in it an unavailable class always says why.
/// Pads and courtyards come from one reading and are available or not together.
pub proof fn routing_geometry_accounts_for_every_class(replies: Seq<Reply>, at: int)
    ensures
        routing_geometry(replies, at) matches Progress::Done(result, _) ==> {
            &&& result matches Ok(found)
            &&& class_is_sound(found.layers)
            &&& class_is_sound(found.board_extents)
            &&& class_is_sound(found.footprints)
            &&& class_is_sound(found.pads)
            &&& class_is_sound(found.tracks)
            &&& class_is_sound(found.track_arcs)
            &&& class_is_sound(found.vias)
            &&& class_is_sound(found.courtyards)
            &&& class_is_sound(found.zones)
            &&& class_is_sound(found.board_edges)
            &&& found.pads.available == found.courtyards.available
            &&& found.pads.reason == found.courtyards.reason
        },
{
    reveal(pads_of);
    reveal(courtyards_of);
    if let Progress::Done(_, _) = routing_geometry(replies, at) {
        let arcs = arcs_of(
            replies,
            end_of(board_tracks(None, None, replies, end_of(board_footprints(replies, at)))),
        );
        if let Progress::Done(Ok(items), _) = items_of(ItemKind::Footprint, replies, end_of(arcs)) {
            lemma_pads_and_courtyards_fail_together(items);
        }
    }
}

proof fn lemma_children_fail_together(children: Seq<ChildItem>, reference: Seq<char>)
    ensures
        match try_gather(children, child_pad(reference)) {
            Err(e) => try_gather(children, child_courtyard(reference)) == Err::<
                Seq<PolygonView>,
                Seq<CauseView>,
            >(e),
            Ok(_) => try_gather(children, child_courtyard(reference)) is Ok,
        },
    decreases children.len(),
{
    if children.len() > 0 {
        lemma_children_fail_together(children.drop_last(), reference);
    }
}

proof fn lemma_pads_and_courtyards_fail_together(items: Seq<Item>)
    ensures
        match all_pads(items) {
            Err(e) => all_courtyards(items) == Err::<Seq<PolygonView>, Seq<CauseView>>(e),
            Ok(_) => all_courtyards(items) is Ok,
        },
    decreases items.len(),
{
    if items.len() > 0 {
        lemma_pads_and_courtyards_fail_together(items.drop_last());
        if let Ok(fp) = as_footprint(items.last()) {
            lemma_children_fail_together(
                children_of(fp),
                text_or_empty(text_of_field(fp.reference_field)),
            );
        }
    }
}

} // verus!
