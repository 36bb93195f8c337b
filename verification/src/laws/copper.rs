//! What routing geometry tells is what KiCad sent.

use crate::board::{
    ClassView, IpcBoardEdgeGeometry, PadView, PolygonView, RoutingView, TrackArcView, ViaView,
};
use crate::error::CauseView;
use crate::gather::{gather, try_gather};
use crate::geometry::{
    arcs_of, child_courtyard, child_pad, courtyards_of, edges_of, end_of, footprint_courtyards,
    footprint_pads, listed_edge, pads_of, routing_geometry, vias_of, zone_outlines, zones_of,
};
use crate::items::{board_footprints, children_of, text_of_field};
use crate::laws::listing::{
    are_stack_layers, is_copper_size, is_field_text, is_net_code, is_net_name, is_place,
    lemma_gather_lists, lemma_try_gather_is_ok, lemma_try_gather_lists, lists, sends_items,
    tells_via,
};
use crate::layers::layer_name;
use crate::messages::{
    BoardGraphicShape, BoardLayer, ChildContent, ChildItem, FootprintInstance, Geometry,
    GraphicShape, Item, ItemContent, Pad, PadStackLayer, PadStackShape, PolyLineNode, PolySet,
    PolygonWithHoles, Vector2, Zone, ZoneSettings,
};
use crate::session::{board_extents, board_layers};
use crate::step::{Progress, Reply};
use crate::text::{finishes_with, text_or_empty};
use crate::tracks::{board_tracks, listed_arc, required_via};
use crate::zones::{line_points, node_point, outline_points, set_points};
use vstd::prelude::*;

verus! {

// Lists of lists.

/// Where each item gives the entries of its own sources, all entries are those of all sources.
pub proof fn lemma_try_gather_flattens<A, B, C>(
    items: Seq<A>,
    f: spec_fn(A) -> Result<Seq<B>, Seq<CauseView>>,
    sources: spec_fn(A) -> Seq<C>,
    tells: spec_fn(B, C) -> bool,
)
    requires
        forall|i: int|
            #![trigger items[i]]
            0 <= i < items.len() ==> (f(items[i]) matches Ok(part) ==> lists(
                part,
                sources(items[i]),
                tells,
            )),
    ensures
        try_gather(items, f) matches Ok(all) ==> lists(all, items.flat_map(sources), tells),
    decreases items.len(),
{
    if items.len() == 0 {
        assert(items.map_values(sources) =~= Seq::<Seq<C>>::empty());
    } else {
        let head = items.drop_last();
        assert forall|i: int| #![trigger head[i]] 0 <= i < head.len() implies (f(
            head[i],
        ) matches Ok(part) ==> lists(part, sources(head[i]), tells)) by {
            assert(head[i] == items[i]);
        }
        lemma_try_gather_flattens(head, f, sources, tells);
        assert(items.last() == items[items.len() - 1]);
        assert(items.map_values(sources) =~= head.map_values(sources).push(sources(items.last())));
        head.map_values(sources).lemma_flatten_push(sources(items.last()));
    }
}

/// As `lemma_gather_lists`, where an item may fail.
pub proof fn lemma_try_gather_filters<A, B>(
    items: Seq<A>,
    f: spec_fn(A) -> Result<Seq<B>, Seq<CauseView>>,
    keep: spec_fn(A) -> bool,
    tells: spec_fn(B, A) -> bool,
)
    requires
        forall|a: A|
            #[trigger] keep(a) ==> (f(a) matches Ok(part) ==> part.len() == 1 && tells(
                part[0],
                a,
            )),
        forall|a: A| !#[trigger] keep(a) ==> (f(a) matches Ok(part) ==> part.len() == 0),
    ensures
        try_gather(items, f) matches Ok(all) ==> lists(all, items.filter(keep), tells),
    decreases items.len(),
{
    reveal(Seq::filter);
    if items.len() > 0 {
        let head = items.drop_last();
        lemma_try_gather_filters(head, f, keep, tells);
        assert(keep(items.last()) || !keep(items.last()));
        if let Ok(all) = try_gather(items, f) {
            let entries = try_gather(head, f)->Ok_0;
            let sources = head.filter(keep);
            assert forall|k: int| 0 <= k < all.len() implies tells(
                #[trigger] all[k],
                items.filter(keep)[k],
            ) by {
                if k < entries.len() {
                    assert(all[k] == entries[k]);
                    assert(items.filter(keep)[k] == sources[k]);
                }
            }
        }
    }
}

/// Whether a text ends with another one.
pub open spec fn has_suffix(text: Seq<char>, suffix: Seq<char>) -> bool {
    exists|front: Seq<char>| text == #[trigger] (front + suffix)
}

pub proof fn lemma_suffix(text: Seq<char>, suffix: Seq<char>)
    ensures
        has_suffix(text, suffix) <==> finishes_with(text, suffix),
{
    if finishes_with(text, suffix) {
        let front = text.take(text.len() - suffix.len());
        assert(text =~= front + suffix);
    }
    if has_suffix(text, suffix) {
        let front = choose|front: Seq<char>| text == #[trigger] (front + suffix);
        assert(text.skip(text.len() - suffix.len()) =~= suffix);
    }
}

// Track arcs and vias.

/// Whether an entry tells of a track arc as it was sent.
pub open spec fn tells_arc(entry: TrackArcView, item: Item) -> bool {
    &&& item.content matches ItemContent::Arc(arc)
    &&& is_net_name(entry.net_name, arc.net)
    &&& entry.layer == layer_name(arc.layer)
    &&& arc.width_nm matches Some(width) ==> entry.width_nm == width
    &&& arc.width_nm is None ==> entry.width_nm == 250_000
    &&& arc.start == Some(entry.start)
    &&& arc.mid == Some(entry.mid)
    &&& arc.end == Some(entry.end)
}

/// Whether an item is a track arc with its three points.
pub open spec fn is_whole_arc(item: Item) -> bool {
    match item.content {
        ItemContent::Arc(arc) => arc.start is Some && arc.mid is Some && arc.end is Some,
        _ => false,
    }
}

/// Track arcs are told as they were sent, all of them and in order. They are told just where
/// each item is a track arc with its three points.
pub proof fn arcs_are_told_as_they_were_sent<'a>(replies: Seq<Reply>, at: int, items: Seq<Item>)
    requires
        sends_items(replies, at, items),
    ensures
        arcs_of::<'a>(replies, at) matches Progress::Done(result, used) && used == at + 2 && (
        result is Ok <==> forall|i: int| 0 <= i < items.len() ==> is_whole_arc(#[trigger] items[i]))
            && (result matches Ok(told) ==> lists(
            told,
            items,
            |entry: TrackArcView, item: Item| tells_arc(entry, item),
        )),
{
    reveal(arcs_of);
    let f = |item: Item| listed_arc(item);
    lemma_try_gather_is_ok(items, f);
    assert forall|i: int| 0 <= i < items.len() implies (f(#[trigger] items[i]) is Ok
        <==> is_whole_arc(items[i])) by {}
    lemma_try_gather_lists(items, f, |entry: TrackArcView, item: Item| tells_arc(entry, item));
}

/// Vias are told as they were sent, all of them and in order. They are told just where each
/// item is a via.
pub proof fn vias_are_told_as_they_were_sent<'a>(replies: Seq<Reply>, at: int, items: Seq<Item>)
    requires
        sends_items(replies, at, items),
    ensures
        vias_of::<'a>(replies, at) matches Progress::Done(result, used) && used == at + 2 && (
        result is Ok <==> forall|i: int| 0 <= i < items.len() ==> (#[trigger] items[i]).content
            is Via) && (result matches Ok(told) ==> lists(
            told,
            items,
            |entry: ViaView, item: Item| tells_via(entry, item),
        )),
{
    reveal(vias_of);
    let f = |item: Item| required_via(item);
    lemma_try_gather_is_ok(items, f);
    assert forall|i: int| 0 <= i < items.len() implies (f(#[trigger] items[i]) is Ok
        <==> items[i].content is Via) by {}
    lemma_try_gather_lists(items, f, |entry: ViaView, item: Item| tells_via(entry, item));
}

// Pads.

/// Whether a name is the protocol's for a pad shape.
pub open spec fn is_shape_name(name: Seq<char>, shape: PadStackShape) -> bool {
    name == match shape {
        PadStackShape::Circle => "PssCircle"@,
        PadStackShape::Rectangle => "PssRectangle"@,
        PadStackShape::Oval => "PssOval"@,
        PadStackShape::Trapezoid => "PssTrapezoid"@,
        PadStackShape::Roundrect => "PssRoundrect"@,
        PadStackShape::Chamferedrect => "PssChamferedrect"@,
        PadStackShape::Custom => "PssCustom"@,
        PadStackShape::Unknown | PadStackShape::Invalid => "PssUnknown"@,
    }
}

/// Whether an entry tells of the copper of a pad: its shape, the rounding of its corners, and
/// whether its outline can be reckoned with.
pub open spec fn tells_copper(entry: PadView, copper: PadStackLayer) -> bool {
    &&& entry.shape matches Some(name)
    &&& is_shape_name(name, copper.shape)
    &&& entry.corner_rounding_ratio == Some(copper.corner_rounding_ratio)
    &&& entry.geometry_supported <==> (copper.shape is Circle || copper.shape is Rectangle
        || copper.shape is Oval || copper.shape is Roundrect)
    &&& entry.geometry_reason is Some <==> !entry.geometry_supported && !(copper.shape is Invalid)
    &&& entry.geometry_reason matches Some(reason) ==> reason == "unsupported IPC pad shape: "@
        + name
}

/// Whether an entry tells of a footprint's pad as it was sent.
pub open spec fn tells_pad(entry: PadView, source: (FootprintInstance, ChildItem)) -> bool {
    &&& source.1.content matches ChildContent::Pad(pad)
    &&& is_field_text(entry.reference, source.0.reference_field)
    &&& entry.number == pad.number@
    &&& is_place(entry.position, pad.position)
    &&& is_copper_size(entry.size, pad.pad_stack)
    &&& are_stack_layers(entry.layers, pad.pad_stack)
    &&& is_net_name(entry.net_name, pad.net)
    &&& is_net_code(entry.net_id, pad.net)
    &&& match pad.pad_stack {
        Some(stack) => {
            &&& stack.angle matches Some(angle) ==> entry.rotation == angle
            &&& stack.angle is None ==> entry.rotation.bits == 0
            &&& stack.copper_layers@.len() > 0 ==> tells_copper(entry, stack.copper_layers@[0])
            &&& stack.copper_layers@.len() == 0 ==> entry.shape is None
                && entry.corner_rounding_ratio is None && !entry.geometry_supported
                && entry.geometry_reason is None
        },
        None => {
            &&& entry.rotation.bits == 0
            &&& entry.shape is None
            &&& entry.corner_rounding_ratio is None
            &&& !entry.geometry_supported
            &&& entry.geometry_reason is None
        },
    }
}

/// Whether a child is packed as a pad.
pub open spec fn is_pad_child(child: ChildItem) -> bool {
    has_suffix(child.type_url@, ".Pad"@)
}

/// Whether a child is packed as a shape.
pub open spec fn is_shape_child(child: ChildItem) -> bool {
    has_suffix(child.type_url@, ".BoardGraphicShape"@) && !is_pad_child(child)
}

/// Whether a child holds what it is packed as, where it is packed as a pad or a shape.
pub open spec fn is_readable(child: ChildItem) -> bool {
    &&& is_pad_child(child) ==> child.content is Pad
    &&& is_shape_child(child) ==> child.content is Shape
}

/// The children of the footprint that an item is.
pub open spec fn children_in(item: Item) -> Seq<ChildItem> {
    match item.content {
        ItemContent::Footprint(fp) => match fp.definition {
            Some(definition) => definition.items@,
            None => Seq::empty(),
        },
        _ => Seq::empty(),
    }
}

/// Whether an item is a footprint with children that can be read.
pub open spec fn is_readable_footprint(item: Item) -> bool {
    item.content is Footprint && forall|k: int|
        0 <= k < children_in(item).len() ==> is_readable(#[trigger] children_in(item)[k])
}

/// The children of a footprint that pass a test, each with its footprint.
pub open spec fn parts_in(item: Item, test: spec_fn(ChildItem) -> bool) -> Seq<
    (FootprintInstance, ChildItem),
> {
    match item.content {
        ItemContent::Footprint(fp) => children_in(item).filter(test).map_values(
            |child: ChildItem| (fp, child),
        ),
        _ => Seq::empty(),
    }
}

proof fn lemma_pad_told(fp: FootprintInstance, child: ChildItem)
    ensures
        ({
            let f = child_pad(text_or_empty(text_of_field(fp.reference_field)));
            &&& f(child) is Ok <==> is_readable(child)
            &&& is_pad_child(child) ==> (f(child) matches Ok(part) ==> part.len() == 1
                && tells_pad(part[0], (fp, child)))
            &&& !is_pad_child(child) ==> (f(child) matches Ok(part) ==> part.len() == 0)
        }),
{
    lemma_suffix(child.type_url@, ".Pad"@);
    lemma_suffix(child.type_url@, ".BoardGraphicShape"@);
}

proof fn lemma_pads_told(item: Item)
    ensures
        footprint_pads(item) is Ok <==> is_readable_footprint(item),
        footprint_pads(item) matches Ok(told) ==> lists(
            told,
            parts_in(item, |child: ChildItem| is_pad_child(child)),
            |entry: PadView, source: (FootprintInstance, ChildItem)| tells_pad(entry, source),
        ),
{
    if let ItemContent::Footprint(fp) = item.content {
        let f = child_pad(text_or_empty(text_of_field(fp.reference_field)));
        let children = children_in(item);
        let keep = |child: ChildItem| is_pad_child(child);
        let tells = |entry: PadView, child: ChildItem| tells_pad(entry, (fp, child));
        assert(children == children_of(fp));
        assert forall|a: ChildItem| #[trigger] keep(a) implies (f(a) matches Ok(part)
            ==> part.len() == 1 && tells(part[0], a)) by {
            lemma_pad_told(fp, a);
        }
        assert forall|a: ChildItem| !#[trigger] keep(a) implies (f(a) matches Ok(part)
            ==> part.len() == 0) by {
            lemma_pad_told(fp, a);
        }
        lemma_try_gather_filters(children, f, keep, tells);
        lemma_try_gather_is_ok(children, f);
        assert forall|k: int| 0 <= k < children.len() implies (f(#[trigger] children[k]) is Ok
            <==> is_readable(children[k])) by {
            lemma_pad_told(fp, children[k]);
        }
    }
}

/// Pads are told as they were sent: those of each footprint in turn, in order, each with the
/// reference of its footprint and with the number, place, size, shape, angle, layers and net
/// that it was sent with. They are told just where each item is a footprint whose pads and
/// shapes can be read.
pub proof fn pads_are_told_as_they_were_sent<'a>(replies: Seq<Reply>, at: int, items: Seq<Item>)
    requires
        sends_items(replies, at, items),
    ensures
        pads_of::<'a>(replies, at) matches Progress::Done(result, used) && used == at + 2 && (
        result is Ok <==> forall|i: int|
            0 <= i < items.len() ==> is_readable_footprint(#[trigger] items[i])) && (
        result matches Ok(told) ==> lists(
            told,
            items.flat_map(|item: Item| parts_in(item, |child: ChildItem| is_pad_child(child))),
            |entry: PadView, source: (FootprintInstance, ChildItem)| tells_pad(entry, source),
        )),
{
    reveal(pads_of);
    let f = |item: Item| footprint_pads(item);
    let sources = |item: Item| parts_in(item, |child: ChildItem| is_pad_child(child));
    let tells = |entry: PadView, source: (FootprintInstance, ChildItem)| tells_pad(entry, source);
    assert forall|i: int| #![trigger items[i]] 0 <= i < items.len() implies (f(
        items[i],
    ) matches Ok(part) ==> lists(part, sources(items[i]), tells)) && (f(items[i]) is Ok
        <==> is_readable_footprint(items[i])) by {
        lemma_pads_told(items[i]);
    }
    lemma_try_gather_flattens(items, f, sources, tells);
    lemma_try_gather_is_ok(items, f);
}

// Outlines.

/// Whether points are those of an outline's nodes that are points, in order.
pub open spec fn are_node_points(points: Seq<Vector2>, nodes: Seq<PolyLineNode>) -> bool {
    lists(
        points,
        nodes.filter(|node: PolyLineNode| node is Point),
        |p: Vector2, node: PolyLineNode| node == PolyLineNode::Point(p),
    )
}

/// Whether points are those of a polygon's outline.
pub open spec fn are_outline_points(points: Seq<Vector2>, polygon: PolygonWithHoles) -> bool {
    match polygon.outline {
        Some(line) => are_node_points(points, line.nodes@),
        None => false,
    }
}

/// The polygons of a set that have an outline.
pub open spec fn outlined(set: PolySet) -> Seq<PolygonWithHoles> {
    set.polygons@.filter(|polygon: PolygonWithHoles| polygon.outline is Some)
}

/// Whether outlines are those of a set's polygons, in order.
pub open spec fn are_set_points(outlines: Seq<Seq<Vector2>>, set: PolySet) -> bool {
    lists(
        outlines,
        outlined(set),
        |points: Seq<Vector2>, polygon: PolygonWithHoles| are_outline_points(points, polygon),
    )
}

/// An outline has the points that were sent, in order, and a set has the outlines of its
/// polygons.
pub proof fn outlines_are_told_as_they_were_sent(set: PolySet)
    ensures
        are_set_points(set_points(set), set),
{
    let f = |polygon: PolygonWithHoles| outline_points(polygon);
    let keep = |polygon: PolygonWithHoles| polygon.outline is Some;
    let tells = |points: Seq<Vector2>, polygon: PolygonWithHoles|
        are_outline_points(points, polygon);
    assert forall|a: PolygonWithHoles| #[trigger] keep(a) implies f(a).len() == 1 && tells(
        f(a)[0],
        a,
    ) by {
        if let Some(line) = a.outline {
            let g = |node: PolyLineNode| node_point(node);
            lemma_gather_lists(
                line.nodes@,
                g,
                |node: PolyLineNode| node is Point,
                |p: Vector2, node: PolyLineNode| node == PolyLineNode::Point(p),
            );
            assert(line_points(line) == gather(line.nodes@, g));
        }
    }
    assert forall|a: PolygonWithHoles| !#[trigger] keep(a) implies f(a).len() == 0 by {}
    lemma_gather_lists(set.polygons@, f, keep, tells);
}

/// Whether outlines are those of a set that may be missing.
pub open spec fn are_optional_points(outlines: Seq<Seq<Vector2>>, set: Option<PolySet>) -> bool {
    match set {
        Some(s) => are_set_points(outlines, s),
        None => outlines.len() == 0,
    }
}

// Courtyards.

/// Whether points are those of a shape with straight lines: both ends of a segment, the four
/// corners of a rectangle all the way round, or the first outline of a polygon.
pub open spec fn are_shape_points(points: Seq<Vector2>, geometry: Geometry) -> bool {
    match geometry {
        Geometry::Segment { start: Some(start), end: Some(end) } => points == seq![start, end],
        Geometry::Rectangle { top_left: Some(a), bottom_right: Some(b) } => {
            &&& points.len() == 4
            &&& points[0] == a && points[2] == b
            &&& points[1].x_nm == b.x_nm && points[1].y_nm == a.y_nm
            &&& points[3].x_nm == a.x_nm && points[3].y_nm == b.y_nm
        },
        Geometry::Polygon(set) => outlined(set).len() > 0 && are_outline_points(
            points,
            outlined(set)[0],
        ),
        _ => false,
    }
}

/// Whether a shape has straight lines.
pub open spec fn is_straight(geometry: Geometry) -> bool {
    match geometry {
        Geometry::Segment { start, end } => start is Some && end is Some,
        Geometry::Rectangle { top_left, bottom_right } => top_left is Some && bottom_right is Some,
        Geometry::Polygon(set) => outlined(set).len() > 0,
        _ => false,
    }
}

/// Whether a child is a shape with straight lines on a courtyard layer.
pub open spec fn is_courtyard_child(child: ChildItem) -> bool {
    is_shape_child(child) && match child.content {
        ChildContent::Shape(BoardGraphicShape {
            layer,
            shape: Some(GraphicShape { geometry: Some(geometry) }),
        }) => (layer is FCrtYd || layer is BCrtYd) && is_straight(geometry),
        _ => false,
    }
}

/// Whether an entry tells of a footprint's courtyard as it was sent.
pub open spec fn tells_courtyard(
    entry: PolygonView,
    source: (FootprintInstance, ChildItem),
) -> bool {
    &&& entry.object_type == "courtyard"@
    &&& entry.reference matches Some(reference)
    &&& is_field_text(reference, source.0.reference_field)
    &&& entry.net_name is None && entry.net_id is None
    &&& entry.polygons.len() == 1
    &&& match source.1.content {
        ChildContent::Shape(BoardGraphicShape {
            layer,
            shape: Some(GraphicShape { geometry: Some(geometry) }),
        }) => entry.layer == layer_name(layer) && are_shape_points(entry.polygons[0], geometry),
        _ => false,
    }
}

proof fn lemma_courtyard_told(fp: FootprintInstance, child: ChildItem)
    ensures
        ({
            let f = child_courtyard(text_or_empty(text_of_field(fp.reference_field)));
            &&& f(child) is Ok <==> is_readable(child)
            &&& is_courtyard_child(child) ==> (f(child) matches Ok(part) ==> part.len() == 1
                && tells_courtyard(part[0], (fp, child)))
            &&& !is_courtyard_child(child) ==> (f(child) matches Ok(part) ==> part.len() == 0)
        }),
{
    lemma_suffix(child.type_url@, ".Pad"@);
    lemma_suffix(child.type_url@, ".BoardGraphicShape"@);
    if let ChildContent::Shape(shape) = child.content {
        if let Some(GraphicShape { geometry: Some(Geometry::Polygon(set)) }) = shape.shape {
            outlines_are_told_as_they_were_sent(set);
        }
    }
}

proof fn lemma_courtyards_told(item: Item)
    ensures
        footprint_courtyards(item) is Ok <==> is_readable_footprint(item),
        footprint_courtyards(item) matches Ok(told) ==> lists(
            told,
            parts_in(item, |child: ChildItem| is_courtyard_child(child)),
            |entry: PolygonView, source: (FootprintInstance, ChildItem)|
                tells_courtyard(entry, source),
        ),
{
    if let ItemContent::Footprint(fp) = item.content {
        let f = child_courtyard(text_or_empty(text_of_field(fp.reference_field)));
        let children = children_in(item);
        let keep = |child: ChildItem| is_courtyard_child(child);
        let tells = |entry: PolygonView, child: ChildItem| tells_courtyard(entry, (fp, child));
        assert(children == children_of(fp));
        assert forall|a: ChildItem| #[trigger] keep(a) implies (f(a) matches Ok(part)
            ==> part.len() == 1 && tells(part[0], a)) by {
            lemma_courtyard_told(fp, a);
        }
        assert forall|a: ChildItem| !#[trigger] keep(a) implies (f(a) matches Ok(part)
            ==> part.len() == 0) by {
            lemma_courtyard_told(fp, a);
        }
        lemma_try_gather_filters(children, f, keep, tells);
        lemma_try_gather_is_ok(children, f);
        assert forall|k: int| 0 <= k < children.len() implies (f(#[trigger] children[k]) is Ok
            <==> is_readable(children[k])) by {
            lemma_courtyard_told(fp, children[k]);
        }
    }
}

/// Courtyards are told as they were sent: the shapes with straight lines on the courtyard
/// layers of each footprint in turn, in order. They are told just where each item is a
/// footprint whose pads and shapes can be read.
pub proof fn courtyards_are_told_as_they_were_sent<'a>(
    replies: Seq<Reply>,
    at: int,
    items: Seq<Item>,
)
    requires
        sends_items(replies, at, items),
    ensures
        courtyards_of::<'a>(replies, at) matches Progress::Done(result, used) && used == at + 2
            && (result is Ok <==> forall|i: int|
            0 <= i < items.len() ==> is_readable_footprint(#[trigger] items[i])) && (
        result matches Ok(told) ==> lists(
            told,
            items.flat_map(
                |item: Item| parts_in(item, |child: ChildItem| is_courtyard_child(child)),
            ),
            |entry: PolygonView, source: (FootprintInstance, ChildItem)|
                tells_courtyard(entry, source),
        )),
{
    reveal(courtyards_of);
    let f = |item: Item| footprint_courtyards(item);
    let sources = |item: Item| parts_in(item, |child: ChildItem| is_courtyard_child(child));
    let tells = |entry: PolygonView, source: (FootprintInstance, ChildItem)|
        tells_courtyard(entry, source);
    assert forall|i: int| #![trigger items[i]] 0 <= i < items.len() implies (f(
        items[i],
    ) matches Ok(part) ==> lists(part, sources(items[i]), tells)) && (f(items[i]) is Ok
        <==> is_readable_footprint(items[i])) by {
        lemma_courtyards_told(items[i]);
    }
    lemma_try_gather_flattens(items, f, sources, tells);
    lemma_try_gather_is_ok(items, f);
}

// Zones.

/// Whether an entry tells of a zone on one of its layers as it was sent. A zone that is no
/// copper pour has no net.
pub open spec fn tells_zone(entry: PolygonView, source: (Zone, BoardLayer)) -> bool {
    let zone = source.0;
    &&& entry.object_type == "zone_outline"@
    &&& entry.reference is None
    &&& entry.layer == layer_name(source.1)
    &&& match zone.settings {
        Some(ZoneSettings::Copper { net }) => {
            &&& entry.net_name matches Some(name) && is_net_name(name, net)
            &&& entry.net_id matches Some(code) && is_net_code(code, net)
        },
        _ => entry.net_name is None && entry.net_id is None,
    }
    &&& are_optional_points(entry.polygons, zone.outline)
}

/// A zone with each of its layers.
pub open spec fn zone_layers(item: Item) -> Seq<(Zone, BoardLayer)> {
    match item.content {
        ItemContent::Zone(zone) => zone.layers@.map_values(|layer: BoardLayer| (zone, layer)),
        _ => Seq::empty(),
    }
}

/// Zones are told as they were sent: each once for each of its layers, in order, with its net
/// and its outline. They are told just where each item is a zone.
pub proof fn zones_are_told_as_they_were_sent<'a>(replies: Seq<Reply>, at: int, items: Seq<Item>)
    requires
        sends_items(replies, at, items),
    ensures
        zones_of::<'a>(replies, at) matches Progress::Done(result, used) && used == at + 2 && (
        result is Ok <==> forall|i: int| 0 <= i < items.len() ==> (#[trigger] items[i]).content
            is Zone) && (result matches Ok(told) ==> lists(
            told,
            items.flat_map(|item: Item| zone_layers(item)),
            |entry: PolygonView, source: (Zone, BoardLayer)| tells_zone(entry, source),
        )),
{
    reveal(zones_of);
    let f = |item: Item| zone_outlines(item);
    let sources = |item: Item| zone_layers(item);
    let tells = |entry: PolygonView, source: (Zone, BoardLayer)| tells_zone(entry, source);
    assert forall|i: int| #![trigger items[i]] 0 <= i < items.len() implies (f(
        items[i],
    ) matches Ok(part) ==> lists(part, sources(items[i]), tells)) && (f(items[i]) is Ok
        <==> items[i].content is Zone) by {
        if let ItemContent::Zone(zone) = items[i].content {
            if let Some(set) = zone.outline {
                outlines_are_told_as_they_were_sent(set);
            }
        }
    }
    lemma_try_gather_flattens(items, f, sources, tells);
    lemma_try_gather_is_ok(items, f);
}

// The board's edge.

/// The form of the shape that an item is, where it lies on the edge layer.
pub open spec fn edge_form(item: Item) -> Option<Geometry> {
    match item.content {
        ItemContent::Shape(BoardGraphicShape {
            layer: BoardLayer::EdgeCuts,
            shape: Some(GraphicShape { geometry: Some(geometry) }),
        }) => Some(geometry),
        _ => None,
    }
}

/// Whether an item is a piece of the board's edge: a segment or an arc with all its points.
pub open spec fn is_edge(item: Item) -> bool {
    match edge_form(item) {
        Some(Geometry::Segment { start, end }) => start is Some && end is Some,
        Some(Geometry::Arc { start, mid, end }) => start is Some && mid is Some && end is Some,
        _ => false,
    }
}

/// Whether an entry tells of a piece of the board's edge as it was sent.
pub open spec fn tells_edge(entry: IpcBoardEdgeGeometry, item: Item) -> bool {
    match edge_form(item) {
        Some(Geometry::Segment { start: Some(a), end: Some(b) }) => {
            entry matches IpcBoardEdgeGeometry::Line { start, end } && start == a && end == b
        },
        Some(Geometry::Arc { start: Some(a), mid: Some(m), end: Some(b) }) => {
            entry matches IpcBoardEdgeGeometry::Arc { start, mid, end } && start == a && mid == m
                && end == b
        },
        _ => false,
    }
}

/// Whether an item is a shape that is not on the edge layer, or a segment or an arc there.
pub open spec fn is_readable_edge(item: Item) -> bool {
    match item.content {
        ItemContent::Shape(shape) => shape.layer is EdgeCuts ==> match edge_form(item) {
            Some(Geometry::Segment { .. }) => true,
            Some(Geometry::Arc { .. }) => true,
            _ => false,
        },
        _ => false,
    }
}

/// The board's edge is told as it was sent: the segments and arcs on the edge layer, in order.
/// It is told just where each item is a shape, and those on the edge layer are segments or
/// arcs; one that lacks a point is passed over.
pub proof fn edges_are_told_as_they_were_sent<'a>(replies: Seq<Reply>, at: int, items: Seq<Item>)
    requires
        sends_items(replies, at, items),
    ensures
        edges_of::<'a>(replies, at) matches Progress::Done(result, used) && used == at + 2 && (
        result is Ok <==> forall|i: int| 0 <= i < items.len() ==> is_readable_edge(
            #[trigger] items[i],
        )) && (result matches Ok(told) ==> lists(
            told,
            items.filter(|item: Item| is_edge(item)),
            |entry: IpcBoardEdgeGeometry, item: Item| tells_edge(entry, item),
        )),
{
    reveal(edges_of);
    let f = |item: Item| listed_edge(item);
    let keep = |item: Item| is_edge(item);
    let tells = |entry: IpcBoardEdgeGeometry, item: Item| tells_edge(entry, item);
    assert forall|a: Item| #[trigger] keep(a) implies (f(a) matches Ok(part) ==> part.len() == 1
        && tells(part[0], a)) by {}
    assert forall|a: Item| !#[trigger] keep(a) implies (f(a) matches Ok(part) ==> part.len()
        == 0) by {}
    lemma_try_gather_filters(items, f, keep, tells);
    lemma_try_gather_is_ok(items, f);
    assert forall|i: int| 0 <= i < items.len() implies (f(#[trigger] items[i]) is Ok
        <==> is_readable_edge(items[i])) by {}
}

// The whole.

/// Whether a class holds what an operation came to: its list, or nothing and the reason.
pub open spec fn holds_outcome<'a, B>(
    class: ClassView<Seq<B>>,
    outcome: Progress<'a, Seq<B>>,
    used: int,
) -> bool {
    &&& outcome matches Progress::Done(result, end)
    &&& end == used
    &&& match result {
        Ok(list) => class.available && class.items == list && class.reason is None,
        Err(causes) => !class.available && class.items.len() == 0 && (causes.len() > 0
            ==> class.reason == Some(causes[0].text())),
    }
}

/// Routing geometry has each class from its own question: footprints, tracks, arcs, pads and
/// courtyards, vias, zones, edges, layers and extents are asked for in turn, and each class
/// holds what came of its question, whatever came of the others.
pub proof fn routing_geometry_has_each_class_from_its_question<'a>(
    replies: Seq<Reply>,
    at: int,
    found: RoutingView,
    used: int,
)
    requires
        routing_geometry::<'a>(replies, at) == Progress::Done(
            Ok::<RoutingView, Seq<CauseView>>(found),
            used,
        ),
    ensures
        exists|a: Seq<int>|
            #![trigger a.len()]
            a.len() == 8 && holds_outcome(found.footprints, board_footprints::<'a>(replies, at), a[0])
                && holds_outcome(found.tracks, board_tracks::<'a>(None, None, replies, a[0]), a[1])
                && holds_outcome(found.track_arcs, arcs_of::<'a>(replies, a[1]), a[2])
                && holds_outcome(found.pads, pads_of::<'a>(replies, a[2]), a[3])
                && (courtyards_of::<'a>(replies, a[2]) matches Progress::Done(_, end)
                && holds_outcome(found.courtyards, courtyards_of::<'a>(replies, a[2]), end))
                && holds_outcome(found.vias, vias_of::<'a>(replies, a[3]), a[4]) && holds_outcome(
                found.zones,
                zones_of::<'a>(replies, a[4]),
                a[5],
            ) && holds_outcome(found.board_edges, edges_of::<'a>(replies, a[5]), a[6])
                && holds_outcome(found.layers, board_layers::<'a>(replies, a[6]), a[7]) && (
            board_extents::<'a>(replies, a[7]) matches Progress::Done(result, end) && end == used
                && match result {
                Ok(extents) => found.board_extents.available && found.board_extents.items == Some(
                    extents,
                ) && found.board_extents.reason is None,
                Err(causes) => !found.board_extents.available && found.board_extents.items is None
                    && (causes.len() > 0 ==> found.board_extents.reason == Some(
                    causes[0].text(),
                )),
            }),
{
    let footprints = board_footprints::<'a>(replies, at);
    let tracks = board_tracks::<'a>(None, None, replies, end_of(footprints));
    let arcs = arcs_of::<'a>(replies, end_of(tracks));
    let pads = pads_of::<'a>(replies, end_of(arcs));
    let vias = vias_of::<'a>(replies, end_of(pads));
    let zones = zones_of::<'a>(replies, end_of(vias));
    let edges = edges_of::<'a>(replies, end_of(zones));
    let layers = board_layers::<'a>(replies, end_of(edges));
    let a = seq![
        end_of(footprints),
        end_of(tracks),
        end_of(arcs),
        end_of(pads),
        end_of(vias),
        end_of(zones),
        end_of(edges),
        end_of(layers),
    ];
    assert(courtyards_of::<'a>(replies, end_of(arcs)) is Done) by {
        reveal(courtyards_of);
        reveal(pads_of);
    }
    assert(a.len() == 8);
}

} // verus!
