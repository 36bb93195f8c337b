//! A footprint is sent to KiCad as its library and its placement have it.

use crate::footprint_item::{
    default_spot, is_footprint_item, spots_of, FieldItem, FootprintChild, FootprintItem,
    IpcGraphicDefinition, IpcPadDefinition, LayerCodes, PadItem, PadKind, PlacedGraphic, PlacedPad,
    PlacedText, Placement, ShapeGeometry, MINUS_ONE_BITS, ONE_BITS,
};
use crate::laws::numbers::a_text_is_found_at_its_first_and_last_place;
use crate::messages::{PadStackShape, Vector2};
use crate::text::has_at;
use vstd::prelude::*;

verus! {

// Pads.

/// Whether a shape is the one that a library names. A name that is not known stands for a
/// rectangle.
pub open spec fn is_named_shape(shape: PadStackShape, name: Seq<char>) -> bool {
    &&& shape is Circle <==> name == "circle"@
    &&& shape is Oval <==> name == "oval"@
    &&& shape is Trapezoid <==> name == "trapezoid"@
    &&& shape is Roundrect <==> name == "roundrect"@
    &&& shape is Chamferedrect <==> name == "chamfered_rect"@
    &&& name == "rect"@ ==> shape is Rectangle
    &&& shape is Circle || shape is Oval || shape is Trapezoid || shape is Roundrect
        || shape is Chamferedrect || shape is Rectangle
}

/// Whether a kind is the one that a library names. A name that is not known stands for a pad
/// on the surface.
pub open spec fn is_named_kind(kind: PadKind, name: Seq<char>) -> bool {
    &&& kind is Pth <==> name == "thru_hole"@
    &&& kind is Npth <==> name == "np_thru_hole"@
    &&& kind is EdgeConnector <==> name == "connect"@
    &&& name == "smd"@ ==> kind is Smd
}

/// Whether a layer name takes in a layer number: `*.Cu` all copper layers, `*.Mask` and
/// `*.Paste` those of both sides, and any other name its own number.
pub open spec fn name_takes_in(name: Seq<char>, own: i32, codes: LayerCodes, code: i32) -> bool {
    ||| name == "*.Cu"@ && 3 <= code && code <= 34
    ||| name == "*.Mask"@ && (code == codes.f_mask || code == codes.b_mask)
    ||| name == "*.Paste"@ && (code == codes.f_paste || code == codes.b_paste)
    ||| name != "*.Cu"@ && name != "*.Mask"@ && name != "*.Paste"@ && code == own
}

/// Whether a pad is sent as its library and its placement have it.
pub open spec fn is_sent_pad(
    sent: PadItem,
    pad: IpcPadDefinition,
    placed: PlacedPad,
    codes: LayerCodes,
) -> bool {
    &&& sent.number@ == pad.number@
    &&& is_named_kind(sent.kind, pad.pad_type@)
    &&& sent.position == placed.position
    &&& sent.angle == placed.angle
    &&& sent.copper.layer == codes.f_cu
    &&& is_named_shape(sent.copper.shape, pad.shape@)
    &&& sent.copper.custom_anchor_shape == sent.copper.shape
    &&& sent.copper.size == placed.size
    &&& sent.copper.corner_rounding_ratio == pad.roundrect_ratio
    &&& sent.copper.offset.x_nm == 0 && sent.copper.offset.y_nm == 0
    &&& match placed.drill {
        Some(extent) => {
            &&& sent.hole matches Some(hole)
            &&& hole.diameter == extent && hole.oblong == pad.drill_oval
            &&& hole.start_layer == codes.f_cu && hole.end_layer == codes.b_cu
        },
        None => sent.hole is None,
    }
    &&& forall|i: int, j: int|
        0 <= i < j < sent.layers@.len() ==> sent.layers@[i] < sent.layers@[j]
    &&& forall|code: i32|
        #[trigger] sent.layers@.contains(code) <==> code != codes.undefined && exists|k: int|
            0 <= k < pad.layers@.len() && name_takes_in(
                (#[trigger] pad.layers@[k])@,
                placed.layer_codes@[k],
                codes,
                code,
            )
}

// Graphics.

/// Whether the lesser and the greater coordinates of two corners make two others.
pub open spec fn are_sorted_corners(low: Vector2, high: Vector2, a: Vector2, b: Vector2) -> bool {
    &&& low.x_nm <= high.x_nm && low.y_nm <= high.y_nm
    &&& low.x_nm == a.x_nm && high.x_nm == b.x_nm || low.x_nm == b.x_nm && high.x_nm == a.x_nm
    &&& low.y_nm == a.y_nm && high.y_nm == b.y_nm || low.y_nm == b.y_nm && high.y_nm == a.y_nm
}

/// Whether a form is a closed polygon with these corners.
pub open spec fn is_closed_polygon(
    form: ShapeGeometry,
    corners: Seq<Vector2>,
    fill: bool,
) -> bool {
    match form {
        ShapeGeometry::Polygon { outline, closed, filled } => outline@ == corners && closed
            && filled == fill,
        _ => false,
    }
}

/// Whether a graphic is sent as its library and its placement have it.
pub open spec fn is_sent_graphic(
    sent: FootprintChild,
    graphic: IpcGraphicDefinition,
    placed: PlacedGraphic,
    cardinal: bool,
) -> bool {
    let p = placed.points@;
    match (graphic, sent) {
        (
            IpcGraphicDefinition::Line { layer, width, .. },
            FootprintChild::Shape { layer: on, width: wide, geometry },
        ) => on@ == layer@ && wide == width && match geometry {
            ShapeGeometry::Segment { start, end } => start == p[0] && end == p[1],
            _ => false,
        },
        (
            IpcGraphicDefinition::Rect { layer, width, filled, .. },
            FootprintChild::Shape { layer: on, width: wide, geometry },
        ) => on@ == layer@ && wide == width && (if cardinal {
            match geometry {
                ShapeGeometry::Rectangle { top_left, bottom_right, filled: fill } =>
                    are_sorted_corners(top_left, bottom_right, p[0], p[1]) && fill == filled,
                _ => false,
            }
        } else {
            is_closed_polygon(geometry, p, filled)
        }),
        (
            IpcGraphicDefinition::Circle { layer, width, filled, .. },
            FootprintChild::Shape { layer: on, width: wide, geometry },
        ) => on@ == layer@ && wide == width && match geometry {
            ShapeGeometry::Circle { center, radius, filled: fill } => center == p[0] && radius
                == placed.radius && fill == filled,
            _ => false,
        },
        (
            IpcGraphicDefinition::Arc { layer, width, .. },
            FootprintChild::Shape { layer: on, width: wide, geometry },
        ) => on@ == layer@ && wide == width && match geometry {
            ShapeGeometry::Arc { start, mid, end } => start == p[0] && mid == p[1] && end == p[2],
            _ => false,
        },
        (
            IpcGraphicDefinition::Poly { layer, width, filled, .. },
            FootprintChild::Shape { layer: on, width: wide, geometry },
        ) => on@ == layer@ && wide == width && is_closed_polygon(geometry, p, filled),
        (
            IpcGraphicDefinition::Text { text, layer, size, .. },
            FootprintChild::Text { layer: on, text: said, position, size: high, angle },
        ) => on@ == layer@ && said@ == text@ && position == p[0] && high == size && angle
            == placed.angle,
        _ => false,
    }
}

/// Whether a field is sent with a text where it was placed, a millimetre high, on the
/// silkscreen of the footprint's side.
pub open spec fn is_sent_field(
    sent: FieldItem,
    name: Seq<char>,
    said: Seq<char>,
    placed: PlacedText,
    layer: Seq<char>,
    visible: bool,
) -> bool {
    &&& sent.name@ == name && sent.text@ == said
    &&& sent.position == placed.position && sent.angle == placed.angle
    &&& sent.size.x_nm == 1_000_000 && sent.size.y_nm == 1_000_000
    &&& sent.layer@ == if layer == "B.Cu"@ {
        "B.SilkS"@
    } else {
        "F.SilkS"@
    }
    &&& sent.visible == visible
}

/// A footprint is sent as its library and its placement have it: its pads, each with the
/// number, kind, shape, size, hole and layers that the library names and where it was placed,
/// and behind them its graphics; its reference shows and its value does not; and its library
/// entry is what stands before and behind the first colon of its identifier.
pub proof fn a_footprint_is_sent_as_its_library_has_it(
    item: FootprintItem,
    lib_id: Seq<char>,
    reference: Seq<char>,
    value: Seq<char>,
    pads: Seq<IpcPadDefinition>,
    graphics: Seq<IpcGraphicDefinition>,
    placement: Placement,
    layer: Seq<char>,
    codes: LayerCodes,
)
    requires
        is_footprint_item(
            item,
            lib_id,
            reference,
            value,
            pads,
            graphics,
            placement,
            layer,
            codes,
        ),
    ensures
        lib_id == item.library_nickname@ + seq![':'] + item.entry_name@,
        !item.library_nickname@.contains(':'),
        item.position == placement.position && item.orientation == placement.orientation,
        item.layer@ == layer,
        is_sent_field(item.reference, "Reference"@, reference, placement.reference, layer, true),
        is_sent_field(item.value, "Value"@, value, placement.value, layer, false),
        item.children@.len() == pads.len() + graphics.len(),
        forall|i: int|
            0 <= i < pads.len() ==> match #[trigger] item.children@[i] {
                FootprintChild::Pad(sent) => is_sent_pad(sent, pads[i], placement.pads@[i], codes),
                _ => false,
            },
        forall|i: int|
            pads.len() <= i < item.children@.len() ==> is_sent_graphic(
                #[trigger] item.children@[i],
                graphics[i - pads.len()],
                placement.graphics@[i - pads.len()],
                placement.cardinal,
            ),
{
    a_text_is_found_at_its_first_and_last_place(lib_id, ":"@);
    reveal_strlit(":");
    let colon = item.library_nickname@.len() as int;
    assert(":"@ =~= seq![':']);
    assert(has_at(lib_id, ":"@, colon));
    assert(lib_id.subrange(colon, colon + 1)[0] == ':');
    assert(lib_id =~= item.library_nickname@ + seq![':'] + item.entry_name@);
    if item.library_nickname@.contains(':') {
        let j = choose|j: int|
            0 <= j < item.library_nickname@.len() && item.library_nickname@[j] == ':';
        assert(lib_id[j] == ':');
        assert(lib_id.subrange(j, j + 1) =~= ":"@);
        assert(has_at(lib_id, ":"@, j));
    }
    assert forall|i: int| 0 <= i < pads.len() implies match #[trigger] item.children@[i] {
        FootprintChild::Pad(sent) => is_sent_pad(sent, pads[i], placement.pads@[i], codes),
        _ => false,
    } by {
        if let FootprintChild::Pad(sent) = item.children@[i] {
            lemma_shape_named(pads[i].shape@);
            lemma_kind_named(pads[i].pad_type@);
            lemma_layers_named(sent, pads[i], placement.pads@[i], codes);
        }
    }
}

proof fn lemma_shape_named(name: Seq<char>)
    ensures
        is_named_shape(crate::footprint_item::shape_named(name), name),
{
    reveal_strlit("circle");
    reveal_strlit("rect");
    reveal_strlit("oval");
    reveal_strlit("trapezoid");
    reveal_strlit("roundrect");
    reveal_strlit("chamfered_rect");
    assert("circle"@.len() == 6 && "rect"@.len() == 4 && "oval"@.len() == 4);
    assert("trapezoid"@.len() == 9 && "roundrect"@.len() == 9 && "chamfered_rect"@.len() == 14);
    assert("rect"@[0] == 'r' && "oval"@[0] == 'o');
    assert("trapezoid"@[0] == 't' && "roundrect"@[0] == 'r');
}

proof fn lemma_kind_named(name: Seq<char>)
    ensures
        is_named_kind(crate::footprint_item::kind_named(name), name),
{
    reveal_strlit("thru_hole");
    reveal_strlit("np_thru_hole");
    reveal_strlit("connect");
    reveal_strlit("smd");
    assert("thru_hole"@.len() == 9 && "np_thru_hole"@.len() == 12);
    assert("connect"@.len() == 7 && "smd"@.len() == 3);
}

proof fn lemma_layers_named(
    sent: PadItem,
    pad: IpcPadDefinition,
    placed: PlacedPad,
    codes: LayerCodes,
)
    requires
        crate::footprint_item::is_pad_item(sent, pad, placed, codes),
    ensures
        forall|code: i32|
            #[trigger] sent.layers@.contains(code) <==> code != codes.undefined && exists|k: int|
                0 <= k < pad.layers@.len() && name_takes_in(
                    (#[trigger] pad.layers@[k])@,
                    placed.layer_codes@[k],
                    codes,
                    code,
                ),
{
    reveal_strlit("*.Cu");
    reveal_strlit("*.Mask");
    reveal_strlit("*.Paste");
    assert("*.Cu"@.len() == 4 && "*.Mask"@.len() == 6 && "*.Paste"@.len() == 7);
    assert forall|code: i32|
        #[trigger] sent.layers@.contains(code) <==> code != codes.undefined && exists|k: int|
            0 <= k < pad.layers@.len() && name_takes_in(
                (#[trigger] pad.layers@[k])@,
                placed.layer_codes@[k],
                codes,
                code,
            ) by {
        assert forall|k: int| 0 <= k < pad.layers@.len() implies (
        crate::footprint_item::name_covers(
            (#[trigger] pad.layers@[k])@,
            placed.layer_codes@[k],
            codes,
            code,
        ) <==> name_takes_in(pad.layers@[k]@, placed.layer_codes@[k], codes, code)) by {}
    }
}

/// The four names of pad shapes give four different shapes, each its own.
pub proof fn pad_shapes_are_told_apart(a: Seq<char>, b: Seq<char>)
    ensures
        is_named_shape(crate::footprint_item::shape_named(a), a),
        (a == "circle"@ || a == "rect"@ || a == "oval"@ || a == "roundrect"@) && (b == "circle"@
            || b == "rect"@ || b == "oval"@ || b == "roundrect"@) && a != b
            ==> crate::footprint_item::shape_named(a) != crate::footprint_item::shape_named(b),
{
    lemma_shape_named(a);
    lemma_shape_named(b);
}

// Points to place.

/// The local points that are to be placed are those of the graphic: both ends of a line, the
/// middle of a circle, the three points of an arc, the corners of a polygon, the place of a
/// text, and of a rectangle the two corners that are given or, where it is turned, all four.
pub proof fn the_points_to_place_are_those_of_the_graphic(
    graphic: IpcGraphicDefinition,
    cardinal: bool,
)
    ensures
        ({
            let spots = spots_of(graphic, cardinal);
            match graphic {
                IpcGraphicDefinition::Line { start, end, .. } => spots.len() == 2 && spots[0]
                    == start && spots[1] == end,
                IpcGraphicDefinition::Rect { start, end, .. } => if cardinal {
                    spots.len() == 2 && spots[0] == start && spots[1] == end
                } else {
                    &&& spots.len() == 4 && spots[0] == start && spots[2] == end
                    &&& spots[1].x == end.x && spots[1].y == start.y
                    &&& spots[3].x == start.x && spots[3].y == end.y
                },
                IpcGraphicDefinition::Circle { center, .. } => spots.len() == 1 && spots[0]
                    == center,
                IpcGraphicDefinition::Arc { start, mid, end, .. } => spots.len() == 3 && spots[0]
                    == start && spots[1] == mid && spots[2] == end,
                IpcGraphicDefinition::Poly { points, .. } => spots == points@,
                IpcGraphicDefinition::Text { position, .. } => spots.len() == 1 && spots[0]
                    == position,
            }
        }),
{
}

/// A field that the library does not place goes straight above the anchor, or below it, a
/// millimetre away.
pub proof fn fields_go_a_millimetre_from_the_anchor(y: u64)
    ensures
        default_spot(y).at.x.bits == 0 && default_spot(y).at.y.bits == y,
        default_spot(y).rotation.bits == 0,
        ONE_BITS == 0x3ff0_0000_0000_0000,
        MINUS_ONE_BITS == 0xbff0_0000_0000_0000,
{
}

/// What belongs to a footprint goes by the message of its own kind: a pad, a shape or a text.
pub proof fn children_go_by_their_own_messages(child: FootprintChild)
    ensures
        crate::footprint_item::child_message_name(child) == "kiapi.board.types."@ + (match child {
            FootprintChild::Pad(_) => "Pad"@,
            FootprintChild::Shape { .. } => "BoardGraphicShape"@,
            FootprintChild::Text { .. } => "BoardText"@,
        }),
{
    reveal_strlit("kiapi.board.types.");
    reveal_strlit("Pad");
    reveal_strlit("BoardGraphicShape");
    reveal_strlit("BoardText");
    reveal_strlit("kiapi.board.types.Pad");
    reveal_strlit("kiapi.board.types.BoardGraphicShape");
    reveal_strlit("kiapi.board.types.BoardText");
    assert(crate::footprint_item::child_message_name(child) =~= "kiapi.board.types."@ + (
    match child {
        FootprintChild::Pad(_) => "Pad"@,
        FootprintChild::Shape { .. } => "BoardGraphicShape"@,
        FootprintChild::Text { .. } => "BoardText"@,
    }));
}

} // verus!
