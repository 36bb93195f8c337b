//! Footprints as they are sent to KiCad.
//!
//! A footprint comes from a library in coordinates of its own. KiCad takes the children of a
//! placed footprint in absolute board coordinates and keeps them as they are, so each local
//! point has to be turned and shifted first. That is arithmetic on real numbers and is done by
//! the caller: this module says which local points to place (`graphic_spots`, `pad_drill`,
//! `reference_spot`, `value_spot`), takes the placed points in nanometres and puts the
//! footprint together.

use crate::envelope::KiCadIpcClient;
use crate::error::{plain, IpcError};
use crate::messages::{origin, origin_spec, PadStackShape, Vector2};
use crate::scalar::{zero, zero_spec, Point, Scalar};
use crate::text;
use crate::text::find;
use crate::zones::copy_points;
use vstd::prelude::*;
use vstd::string::*;

verus! {

// What a library has.

/// A point and an angle.
#[derive(Clone, Copy, Debug, PartialEq, Eq, Structural)]
pub struct FieldSpot {
    pub at: Point,
    pub rotation: Scalar,
}

/// Where the library puts the texts of a footprint's fields.
#[derive(Clone, Copy, Debug)]
pub struct IpcFieldPlacement {
    pub reference_at: Option<FieldSpot>,
    pub value_at: Option<FieldSpot>,
}

/// A pad of a library footprint. Lengths are in millimetres.
#[derive(Debug)]
pub struct IpcPadDefinition {
    pub number: String,
    pub pad_type: String,
    pub shape: String,
    pub at: Point,
    pub size: Point,
    pub layers: Vec<String>,
    pub drill_x: Option<Scalar>,
    pub drill_y: Option<Scalar>,
    pub drill_oval: bool,
    pub roundrect_ratio: Scalar,
    pub rotation: Scalar,
}

/// A graphic of a library footprint.
#[derive(Debug)]
pub enum IpcGraphicDefinition {
    Line { start: Point, end: Point, layer: String, width: Scalar },
    Rect { start: Point, end: Point, layer: String, width: Scalar, filled: bool },
    Circle { center: Point, end: Point, layer: String, width: Scalar, filled: bool },
    Arc { start: Point, mid: Point, end: Point, layer: String, width: Scalar },
    Poly { points: Vec<Point>, layer: String, width: Scalar, filled: bool },
    Text { text: String, position: Point, rotation: Scalar, layer: String, size: Scalar },
}

/// The bits of 1.
pub const ONE_BITS: u64 = 0x3ff0_0000_0000_0000;

/// The bits of -1.
pub const MINUS_ONE_BITS: u64 = 0xbff0_0000_0000_0000;

/// Where a field's text goes that the library does not place: as far above the anchor, or
/// below it, as `y` says.
pub open spec fn default_spot(y: u64) -> FieldSpot {
    FieldSpot { at: Point { x: zero_spec(), y: Scalar { bits: y } }, rotation: zero_spec() }
}

/// Where the reference goes: a millimetre above the anchor unless the library says otherwise.
pub fn reference_spot(fields: &IpcFieldPlacement) -> (r: FieldSpot)
    ensures
        r == (match fields.reference_at {
            Some(spot) => spot,
            None => default_spot(MINUS_ONE_BITS),
        }),
{
    match fields.reference_at {
        Some(spot) => spot,
        None => FieldSpot {
            at: Point { x: zero(), y: Scalar { bits: MINUS_ONE_BITS } },
            rotation: zero(),
        },
    }
}

/// Where the value goes: a millimetre below the anchor unless the library says otherwise.
pub fn value_spot(fields: &IpcFieldPlacement) -> (r: FieldSpot)
    ensures
        r == (match fields.value_at {
            Some(spot) => spot,
            None => default_spot(ONE_BITS),
        }),
{
    match fields.value_at {
        Some(spot) => spot,
        None => FieldSpot { at: Point { x: zero(), y: Scalar { bits: ONE_BITS } }, rotation: zero() },
    }
}

/// The extent of a pad's hole, where it has one; it is as high as wide unless stated.
pub fn pad_drill(pad: &IpcPadDefinition) -> (r: Option<Point>)
    ensures
        r == (match pad.drill_x {
            Some(x) => Some(
                Point {
                    x,
                    y: match pad.drill_y {
                        Some(y) => y,
                        None => x,
                    },
                },
            ),
            None => None,
        }),
{
    match pad.drill_x {
        Some(x) => Some(
            Point {
                x,
                y: match pad.drill_y {
                    Some(y) => y,
                    None => x,
                },
            },
        ),
        None => None,
    }
}

/// The local points of a graphic that are to be placed. A rectangle that stays parallel to
/// the axes needs two opposite corners, any other all four.
pub open spec fn spots_of(graphic: IpcGraphicDefinition, cardinal: bool) -> Seq<Point> {
    match graphic {
        IpcGraphicDefinition::Line { start, end, .. } => seq![start, end],
        IpcGraphicDefinition::Rect { start, end, .. } => if cardinal {
            seq![start, end]
        } else {
            seq![start, Point { x: end.x, y: start.y }, end, Point { x: start.x, y: end.y }]
        },
        IpcGraphicDefinition::Circle { center, .. } => seq![center],
        IpcGraphicDefinition::Arc { start, mid, end, .. } => seq![start, mid, end],
        IpcGraphicDefinition::Poly { points, .. } => points@,
        IpcGraphicDefinition::Text { position, .. } => seq![position],
    }
}

pub fn graphic_spots(graphic: &IpcGraphicDefinition, cardinal: bool) -> (r: Vec<Point>)
    ensures
        r@ == spots_of(*graphic, cardinal),
{
    match graphic {
        IpcGraphicDefinition::Line { start, end, .. } => {
            let spots = vec![*start, *end];
            assert(spots@ == spots_of(*graphic, cardinal));
            spots
        },
        IpcGraphicDefinition::Rect { start, end, .. } => {
            let spots = if cardinal {
                vec![*start, *end]
            } else {
                vec![*start, Point { x: end.x, y: start.y }, *end, Point { x: start.x, y: end.y }]
            };
            assert(spots@ == spots_of(*graphic, cardinal));
            spots
        },
        IpcGraphicDefinition::Circle { center, .. } => {
            let spots = vec![*center];
            assert(spots@ == spots_of(*graphic, cardinal));
            spots
        },
        IpcGraphicDefinition::Arc { start, mid, end, .. } => {
            let spots = vec![*start, *mid, *end];
            assert(spots@ == spots_of(*graphic, cardinal));
            spots
        },
        IpcGraphicDefinition::Poly { points, .. } => {
            let mut out: Vec<Point> = Vec::new();
            let mut i: usize = 0;
            while i < points.len()
                invariant
                    i <= points@.len(),
                    out@ == points@.take(i as int),
                decreases points@.len() - i,
            {
                out.push(points[i]);
                i += 1;
            }
            assert(points@.take(points@.len() as int) == points@);
            out
        },
        IpcGraphicDefinition::Text { position, .. } => {
            let spots = vec![*position];
            assert(spots@ == spots_of(*graphic, cardinal));
            spots
        },
    }
}

// What the caller worked out.

/// A field's text, placed.
#[derive(Clone, Copy, Debug, PartialEq, Eq, Structural)]
pub struct PlacedText {
    pub position: Vector2,
    /// The angle, kept readable.
    pub angle: Scalar,
}

/// A pad, placed.
#[derive(Debug)]
pub struct PlacedPad {
    pub position: Vector2,
    pub size: Vector2,
    /// The extent of the hole.
    pub drill: Option<Vector2>,
    pub angle: Scalar,
    /// The protocol's number for each of the pad's layer names; of no meaning for the names
    /// that stand for several layers.
    pub layer_codes: Vec<i32>,
}

/// A graphic, placed.
#[derive(Debug)]
pub struct PlacedGraphic {
    /// The places of the points that `graphic_spots` lists.
    pub points: Vec<Vector2>,
    /// The readable angle of a text.
    pub angle: Scalar,
    /// The radius of a circle, which turning does not change.
    pub radius: Scalar,
}

/// A footprint, placed.
#[derive(Debug)]
pub struct Placement {
    pub position: Vector2,
    pub orientation: Scalar,
    /// Whether the footprint is turned by a multiple of a right angle.
    pub cardinal: bool,
    pub reference: PlacedText,
    pub value: PlacedText,
    pub pads: Vec<PlacedPad>,
    pub graphics: Vec<PlacedGraphic>,
}

/// The protocol's numbers for some layers.
#[derive(Clone, Copy, Debug)]
pub struct LayerCodes {
    pub undefined: i32,
    pub f_cu: i32,
    pub b_cu: i32,
    pub f_mask: i32,
    pub b_mask: i32,
    pub f_paste: i32,
    pub b_paste: i32,
}

/// Whether a placement fits what is to be placed.
pub open spec fn fits(
    placement: Placement,
    pads: Seq<IpcPadDefinition>,
    graphics: Seq<IpcGraphicDefinition>,
) -> bool {
    &&& placement.pads@.len() == pads.len()
    &&& placement.graphics@.len() == graphics.len()
    &&& forall|i: int|
        0 <= i < pads.len() ==> (#[trigger] placement.pads@[i]).layer_codes@.len()
            == pads[i].layers@.len()
    &&& forall|i: int|
        0 <= i < pads.len() ==> ((#[trigger] placement.pads@[i]).drill is Some) == (
        pads[i].drill_x is Some)
    &&& forall|i: int|
        0 <= i < graphics.len() ==> (#[trigger] placement.graphics@[i]).points@.len() == spots_of(
            graphics[i],
            placement.cardinal,
        ).len()
}

// What is sent.

/// The text of a field.
#[derive(Debug)]
pub struct FieldItem {
    pub name: String,
    pub text: String,
    pub position: Vector2,
    pub size: Vector2,
    pub angle: Scalar,
    pub layer: String,
    pub visible: bool,
}

/// What kind of pad it is.
#[derive(Clone, Copy, Debug, PartialEq, Eq, Structural)]
pub enum PadKind {
    Pth,
    Npth,
    EdgeConnector,
    Smd,
}

/// The copper of a pad.
#[derive(Clone, Copy, Debug, PartialEq, Eq, Structural)]
pub struct PadCopper {
    pub layer: i32,
    pub shape: PadStackShape,
    pub size: Vector2,
    pub corner_rounding_ratio: Scalar,
    pub custom_anchor_shape: PadStackShape,
    pub offset: Vector2,
}

/// The hole of a pad.
#[derive(Clone, Copy, Debug, PartialEq, Eq, Structural)]
pub struct PadHole {
    pub start_layer: i32,
    pub end_layer: i32,
    pub diameter: Vector2,
    pub oblong: bool,
}

/// A pad with a normal stack: one copper shape for all layers, unconnected layers kept.
#[derive(Debug)]
pub struct PadItem {
    pub number: String,
    pub kind: PadKind,
    pub position: Vector2,
    pub layers: Vec<i32>,
    pub copper: PadCopper,
    pub hole: Option<PadHole>,
    pub angle: Scalar,
}

#[derive(Debug)]
pub enum ShapeGeometry {
    Segment { start: Vector2, end: Vector2 },
    Rectangle { top_left: Vector2, bottom_right: Vector2, filled: bool },
    Polygon { outline: Vec<Vector2>, closed: bool, filled: bool },
    Circle { center: Vector2, radius: Scalar, filled: bool },
    Arc { start: Vector2, mid: Vector2, end: Vector2 },
}

#[derive(Debug)]
pub enum FootprintChild {
    Pad(PadItem),
    Shape { layer: String, width: Scalar, geometry: ShapeGeometry },
    Text { layer: String, text: String, position: Vector2, size: Scalar, angle: Scalar },
}

/// A footprint that is to be created.
#[derive(Debug)]
pub struct FootprintItem {
    pub library_nickname: String,
    pub entry_name: String,
    pub position: Vector2,
    pub orientation: Scalar,
    pub layer: String,
    pub reference: FieldItem,
    pub value: FieldItem,
    pub children: Vec<FootprintChild>,
}

pub open spec fn child_message_name(child: FootprintChild) -> Seq<char> {
    match child {
        FootprintChild::Pad(_) => "kiapi.board.types.Pad"@,
        FootprintChild::Shape { .. } => "kiapi.board.types.BoardGraphicShape"@,
        FootprintChild::Text { .. } => "kiapi.board.types.BoardText"@,
    }
}

impl FootprintChild {
    /// The protocol's name for the child's message.
    pub fn message_name(&self) -> (r: &'static str)
        ensures
            r@ == child_message_name(*self),
    {
        match self {
            FootprintChild::Pad(_) => "kiapi.board.types.Pad",
            FootprintChild::Shape { .. } => "kiapi.board.types.BoardGraphicShape",
            FootprintChild::Text { .. } => "kiapi.board.types.BoardText",
        }
    }
}

// Pads.

/// The least and the greatest number of a copper layer.
pub const FIRST_COPPER: i32 = 3;

pub const LAST_COPPER: i32 = 34;

/// Whether a layer name stands for a layer number; `own` is the number of the name itself.
pub open spec fn name_covers(name: Seq<char>, own: i32, codes: LayerCodes, code: i32) -> bool {
    if name == "*.Cu"@ {
        FIRST_COPPER <= code <= LAST_COPPER
    } else if name == "*.Mask"@ {
        code == codes.f_mask || code == codes.b_mask
    } else if name == "*.Paste"@ {
        code == codes.f_paste || code == codes.b_paste
    } else {
        code == own
    }
}

/// Whether a pad lies on a layer: one of its names stands for it, and it is defined.
pub open spec fn pad_covers(
    names: Seq<String>,
    own: Seq<i32>,
    codes: LayerCodes,
    code: i32,
) -> bool {
    code != codes.undefined && exists|i: int|
        0 <= i < names.len() && name_covers((#[trigger] names[i])@, own[i], codes, code)
}

/// Whether a list holds its numbers in order, each once.
pub open spec fn increasing(list: Seq<i32>) -> bool {
    forall|i: int, j: int| 0 <= i < j < list.len() ==> list[i] < list[j]
}

/// Whether a list is that of a pad's layers, in order and each once.
pub open spec fn is_layer_list(
    list: Seq<i32>,
    names: Seq<String>,
    own: Seq<i32>,
    codes: LayerCodes,
) -> bool {
    &&& increasing(list)
    &&& forall|code: i32| #[trigger] list.contains(code) <==> pad_covers(names, own, codes, code)
}

pub open spec fn shape_named(name: Seq<char>) -> PadStackShape {
    if name == "circle"@ {
        PadStackShape::Circle
    } else if name == "rect"@ {
        PadStackShape::Rectangle
    } else if name == "oval"@ {
        PadStackShape::Oval
    } else if name == "trapezoid"@ {
        PadStackShape::Trapezoid
    } else if name == "roundrect"@ {
        PadStackShape::Roundrect
    } else if name == "chamfered_rect"@ {
        PadStackShape::Chamferedrect
    } else {
        PadStackShape::Rectangle
    }
}

fn shape_by_name(name: &str) -> (r: PadStackShape)
    ensures
        r == shape_named(name@),
{
    if text::same(name, "circle") {
        PadStackShape::Circle
    } else if text::same(name, "rect") {
        PadStackShape::Rectangle
    } else if text::same(name, "oval") {
        PadStackShape::Oval
    } else if text::same(name, "trapezoid") {
        PadStackShape::Trapezoid
    } else if text::same(name, "roundrect") {
        PadStackShape::Roundrect
    } else if text::same(name, "chamfered_rect") {
        PadStackShape::Chamferedrect
    } else {
        PadStackShape::Rectangle
    }
}

pub open spec fn kind_named(name: Seq<char>) -> PadKind {
    if name == "thru_hole"@ {
        PadKind::Pth
    } else if name == "np_thru_hole"@ {
        PadKind::Npth
    } else if name == "connect"@ {
        PadKind::EdgeConnector
    } else {
        PadKind::Smd
    }
}

fn kind_by_name(name: &str) -> (r: PadKind)
    ensures
        r == kind_named(name@),
{
    if text::same(name, "thru_hole") {
        PadKind::Pth
    } else if text::same(name, "np_thru_hole") {
        PadKind::Npth
    } else if text::same(name, "connect") {
        PadKind::EdgeConnector
    } else {
        PadKind::Smd
    }
}

/// The copper of a pad. Its layer is always the front one: in a normal stack that number
/// stands for all layers, and KiCad refuses any other.
pub open spec fn copper_of_pad(
    pad: IpcPadDefinition,
    placed: PlacedPad,
    codes: LayerCodes,
) -> PadCopper {
    PadCopper {
        layer: codes.f_cu,
        shape: shape_named(pad.shape@),
        size: placed.size,
        corner_rounding_ratio: pad.roundrect_ratio,
        custom_anchor_shape: shape_named(pad.shape@),
        offset: origin_spec(),
    }
}

pub open spec fn hole_of_pad(
    pad: IpcPadDefinition,
    placed: PlacedPad,
    codes: LayerCodes,
) -> Option<PadHole> {
    match placed.drill {
        Some(diameter) => Some(
            PadHole {
                start_layer: codes.f_cu,
                end_layer: codes.b_cu,
                diameter,
                oblong: pad.drill_oval,
            },
        ),
        None => None,
    }
}

/// Whether an item is the one for a pad.
pub open spec fn is_pad_item(
    item: PadItem,
    pad: IpcPadDefinition,
    placed: PlacedPad,
    codes: LayerCodes,
) -> bool {
    &&& item.number@ == pad.number@
    &&& item.kind == kind_named(pad.pad_type@)
    &&& item.position == placed.position
    &&& is_layer_list(item.layers@, pad.layers@, placed.layer_codes@, codes)
    &&& item.copper == copper_of_pad(pad, placed, codes)
    &&& item.hole == hole_of_pad(pad, placed, codes)
    &&& item.angle == placed.angle
}

/// Puts a number into an increasing list.
fn insert_code(list: &mut Vec<i32>, code: i32)
    requires
        increasing(old(list)@),
    ensures
        increasing(final(list)@),
        forall|c: i32| #[trigger]
            final(list)@.contains(c) <==> old(list)@.contains(c) || c == code,
{
    let mut i: usize = 0;
    let ghost before = list@;
    while i < list.len() && list[i] < code
        invariant
            i <= list@.len(),
            list@ == before,
            increasing(before),
            forall|j: int| 0 <= j < i ==> #[trigger] before[j] < code,
        decreases list@.len() - i,
    {
        i += 1;
    }
    if i < list.len() && list[i] == code {
        assert(list@[i as int] == code);
        return ;
    }
    list.insert(i, code);
    assert(list@ == before.insert(i as int, code));
    assert forall|c: i32| #[trigger] list@.contains(c) <==> before.contains(c) || c == code by {
        if before.contains(c) {
            let j = choose|j: int| 0 <= j < before.len() && before[j] == c;
            if j < i {
                assert(list@[j] == c);
            } else {
                assert(list@[j + 1] == c);
            }
        }
        if c == code {
            assert(list@[i as int] == code);
        }
        if list@.contains(c) {
            let j = choose|j: int| 0 <= j < list@.len() && list@[j] == c;
            if j < i {
                assert(before[j] == c);
            } else if j > i {
                assert(before[j - 1] == c);
            }
        }
    }
}

/// Puts a defined number into an increasing list.
fn insert_defined(list: &mut Vec<i32>, code: i32, undefined: i32)
    requires
        increasing(old(list)@),
    ensures
        increasing(final(list)@),
        forall|c: i32| #[trigger]
            final(list)@.contains(c) <==> old(list)@.contains(c) || (c == code && c != undefined),
{
    if code != undefined {
        insert_code(list, code);
    }
}

fn list_pad_layers(names: &Vec<String>, own: &Vec<i32>, codes: &LayerCodes) -> (r: Vec<i32>)
    requires
        own@.len() == names@.len(),
    ensures
        is_layer_list(r@, names@, own@, *codes),
{
    let mut list: Vec<i32> = Vec::new();
    let mut i: usize = 0;
    while i < names.len()
        invariant
            i <= names@.len(),
            own@.len() == names@.len(),
            increasing(list@),
            forall|c: i32| #[trigger]
                list@.contains(c) <==> pad_covers(names@.take(i as int), own@, *codes, c),
        decreases names@.len() - i,
    {
        let name = names[i].as_str();
        let ghost before = list@;
        if text::same(name, "*.Cu") {
            let mut code: i32 = FIRST_COPPER;
            while code <= LAST_COPPER
                invariant
                    FIRST_COPPER <= code <= LAST_COPPER + 1,
                    increasing(list@),
                    forall|c: i32| #[trigger]
                        list@.contains(c) <==> before.contains(c) || (FIRST_COPPER <= c < code && c
                            != codes.undefined),
                decreases LAST_COPPER + 1 - code,
            {
                insert_defined(&mut list, code, codes.undefined);
                code += 1;
            }
        } else if text::same(name, "*.Mask") {
            insert_defined(&mut list, codes.f_mask, codes.undefined);
            insert_defined(&mut list, codes.b_mask, codes.undefined);
        } else if text::same(name, "*.Paste") {
            insert_defined(&mut list, codes.f_paste, codes.undefined);
            insert_defined(&mut list, codes.b_paste, codes.undefined);
        } else {
            insert_defined(&mut list, own[i], codes.undefined);
        }
        assert forall|c: i32| #[trigger] list@.contains(c) <==> pad_covers(
            names@.take(i + 1),
            own@,
            *codes,
            c,
        ) by {
            let sofar = names@.take(i as int);
            let now = names@.take(i + 1);
            assert(list@.contains(c) <==> before.contains(c) || (c != codes.undefined
                && name_covers(names@[i as int]@, own@[i as int], *codes, c)));
            if pad_covers(sofar, own@, *codes, c) {
                let k = choose|k: int|
                    0 <= k < sofar.len() && name_covers((#[trigger] sofar[k])@, own@[k], *codes, c);
                assert(now[k] == sofar[k]);
            }
            if c != codes.undefined && name_covers(names@[i as int]@, own@[i as int], *codes, c) {
                assert(now[i as int] == names@[i as int]);
            }
            if pad_covers(now, own@, *codes, c) {
                let k = choose|k: int|
                    0 <= k < now.len() && name_covers((#[trigger] now[k])@, own@[k], *codes, c);
                if k < i {
                    assert(sofar[k] == now[k]);
                }
            }
        }
        i += 1;
    }
    assert(names@.take(names@.len() as int) == names@);
    list
}

fn build_pad(pad: &IpcPadDefinition, placed: &PlacedPad, codes: &LayerCodes) -> (r: PadItem)
    requires
        placed.layer_codes@.len() == pad.layers@.len(),
    ensures
        is_pad_item(r, *pad, *placed, *codes),
{
    let shape = shape_by_name(pad.shape.as_str());
    PadItem {
        number: pad.number.clone(),
        kind: kind_by_name(pad.pad_type.as_str()),
        position: placed.position,
        layers: list_pad_layers(&pad.layers, &placed.layer_codes, codes),
        copper: PadCopper {
            layer: codes.f_cu,
            shape,
            size: placed.size,
            corner_rounding_ratio: pad.roundrect_ratio,
            custom_anchor_shape: shape,
            offset: origin(),
        },
        hole: match placed.drill {
            Some(diameter) => Some(
                PadHole {
                    start_layer: codes.f_cu,
                    end_layer: codes.b_cu,
                    diameter,
                    oblong: pad.drill_oval,
                },
            ),
            None => None,
        },
        angle: placed.angle,
    }
}

// Graphics.

pub open spec fn lesser(a: i64, b: i64) -> i64 {
    if a <= b {
        a
    } else {
        b
    }
}

pub open spec fn greater(a: i64, b: i64) -> i64 {
    if a >= b {
        a
    } else {
        b
    }
}

/// The corner that is least in both directions.
pub open spec fn least_corner(a: Vector2, b: Vector2) -> Vector2 {
    Vector2 { x_nm: lesser(a.x_nm, b.x_nm), y_nm: lesser(a.y_nm, b.y_nm) }
}

/// The corner that is greatest in both directions.
pub open spec fn greatest_corner(a: Vector2, b: Vector2) -> Vector2 {
    Vector2 { x_nm: greater(a.x_nm, b.x_nm), y_nm: greater(a.y_nm, b.y_nm) }
}

/// Whether a shape is a closed polygon with these corners.
pub open spec fn is_polygon(geometry: ShapeGeometry, corners: Seq<Vector2>, fill: bool) -> bool {
    geometry matches ShapeGeometry::Polygon { outline, closed, filled } && outline@ == corners
        && closed && filled == fill
}

/// Whether a child is the one for a graphic. A rectangle keeps its form where the footprint
/// is turned by right angles, with its corners sorted out anew; else it becomes a polygon.
pub open spec fn is_graphic_child(
    child: FootprintChild,
    graphic: IpcGraphicDefinition,
    placed: PlacedGraphic,
    cardinal: bool,
) -> bool {
    let p = placed.points@;
    match graphic {
        IpcGraphicDefinition::Line { layer: on, width: wide, .. } => {
            &&& child matches FootprintChild::Shape { layer, width, geometry }
            &&& layer@ == on@ && width == wide
            &&& geometry == ShapeGeometry::Segment { start: p[0], end: p[1] }
        },
        IpcGraphicDefinition::Rect { layer: on, width: wide, filled, .. } => {
            &&& child matches FootprintChild::Shape { layer, width, geometry }
            &&& layer@ == on@ && width == wide
            &&& if cardinal {
                geometry == ShapeGeometry::Rectangle {
                    top_left: least_corner(p[0], p[1]),
                    bottom_right: greatest_corner(p[0], p[1]),
                    filled,
                }
            } else {
                is_polygon(geometry, p, filled)
            }
        },
        IpcGraphicDefinition::Circle { layer: on, width: wide, filled, .. } => {
            &&& child matches FootprintChild::Shape { layer, width, geometry }
            &&& layer@ == on@ && width == wide
            &&& geometry == ShapeGeometry::Circle { center: p[0], radius: placed.radius, filled }
        },
        IpcGraphicDefinition::Arc { layer: on, width: wide, .. } => {
            &&& child matches FootprintChild::Shape { layer, width, geometry }
            &&& layer@ == on@ && width == wide
            &&& geometry == ShapeGeometry::Arc { start: p[0], mid: p[1], end: p[2] }
        },
        IpcGraphicDefinition::Poly { layer: on, width: wide, filled, .. } => {
            &&& child matches FootprintChild::Shape { layer, width, geometry }
            &&& layer@ == on@ && width == wide
            &&& is_polygon(geometry, p, filled)
        },
        IpcGraphicDefinition::Text { text: said, layer: on, size: high, .. } => {
            &&& child matches FootprintChild::Text { layer, text, position, size, angle }
            &&& layer@ == on@ && text@ == said@
            &&& position == p[0] && size == high && angle == placed.angle
        },
    }
}

fn min_nm(a: i64, b: i64) -> (r: i64)
    ensures
        r == lesser(a, b),
{
    if a <= b {
        a
    } else {
        b
    }
}

fn max_nm(a: i64, b: i64) -> (r: i64)
    ensures
        r == greater(a, b),
{
    if a >= b {
        a
    } else {
        b
    }
}

/// A graphic as a child of a placed footprint.
pub fn build_graphic_child(
    graphic: &IpcGraphicDefinition,
    placed: &PlacedGraphic,
    cardinal: bool,
) -> (r: FootprintChild)
    requires
        placed.points@.len() == spots_of(*graphic, cardinal).len(),
    ensures
        is_graphic_child(r, *graphic, *placed, cardinal),
{
    let p = &placed.points;
    match graphic {
        IpcGraphicDefinition::Line { layer, width, .. } => FootprintChild::Shape {
            layer: layer.clone(),
            width: *width,
            geometry: ShapeGeometry::Segment { start: p[0], end: p[1] },
        },
        IpcGraphicDefinition::Rect { layer, width, filled, .. } => {
            let geometry = if cardinal {
                let (a, b) = (p[0], p[1]);
                ShapeGeometry::Rectangle {
                    top_left: Vector2 {
                        x_nm: min_nm(a.x_nm, b.x_nm),
                        y_nm: min_nm(a.y_nm, b.y_nm),
                    },
                    bottom_right: Vector2 {
                        x_nm: max_nm(a.x_nm, b.x_nm),
                        y_nm: max_nm(a.y_nm, b.y_nm),
                    },
                    filled: *filled,
                }
            } else {
                ShapeGeometry::Polygon { outline: copy_points(p), closed: true, filled: *filled }
            };
            FootprintChild::Shape { layer: layer.clone(), width: *width, geometry }
        },
        IpcGraphicDefinition::Circle { layer, width, filled, .. } => FootprintChild::Shape {
            layer: layer.clone(),
            width: *width,
            geometry: ShapeGeometry::Circle {
                center: p[0],
                radius: placed.radius,
                filled: *filled,
            },
        },
        IpcGraphicDefinition::Arc { layer, width, .. } => FootprintChild::Shape {
            layer: layer.clone(),
            width: *width,
            geometry: ShapeGeometry::Arc { start: p[0], mid: p[1], end: p[2] },
        },
        IpcGraphicDefinition::Poly { layer, width, filled, .. } => FootprintChild::Shape {
            layer: layer.clone(),
            width: *width,
            geometry: ShapeGeometry::Polygon {
                outline: copy_points(p),
                closed: true,
                filled: *filled,
            },
        },
        IpcGraphicDefinition::Text { text, layer, size, .. } => FootprintChild::Text {
            layer: layer.clone(),
            text: text.clone(),
            position: p[0],
            size: *size,
            angle: placed.angle,
        },
    }
}

// The whole.

/// The size of field texts: a millimetre each way.
pub open spec fn field_size() -> Vector2 {
    Vector2 { x_nm: 1_000_000, y_nm: 1_000_000 }
}

/// The layer of field texts: the silkscreen of the footprint's side.
pub open spec fn field_layer(layer: Seq<char>) -> Seq<char> {
    if layer == "B.Cu"@ {
        "B.SilkS"@
    } else {
        "F.SilkS"@
    }
}

/// Whether an item is the one for a field.
pub open spec fn is_field_item(
    item: FieldItem,
    name: Seq<char>,
    said: Seq<char>,
    placed: PlacedText,
    layer: Seq<char>,
    visible: bool,
) -> bool {
    &&& item.name@ == name
    &&& item.text@ == said
    &&& item.position == placed.position
    &&& item.angle == placed.angle
    &&& item.size == field_size()
    &&& item.layer@ == field_layer(layer)
    &&& item.visible == visible
}

/// Whether an item is a footprint put together from its parts: pads first, then graphics,
/// each in the order given.
pub open spec fn is_footprint_item(
    item: FootprintItem,
    lib_id: Seq<char>,
    reference: Seq<char>,
    value: Seq<char>,
    pads: Seq<IpcPadDefinition>,
    graphics: Seq<IpcGraphicDefinition>,
    placement: Placement,
    layer: Seq<char>,
    codes: LayerCodes,
) -> bool {
    &&& find(lib_id, ":"@) matches Some(colon)
    &&& item.library_nickname@ == lib_id.take(colon)
    &&& item.entry_name@ == lib_id.skip(colon + 1)
    &&& item.position == placement.position
    &&& item.orientation == placement.orientation
    &&& item.layer@ == layer
    &&& is_field_item(item.reference, "Reference"@, reference, placement.reference, layer, true)
    &&& is_field_item(item.value, "Value"@, value, placement.value, layer, false)
    &&& item.children@.len() == pads.len() + graphics.len()
    &&& forall|i: int|
        0 <= i < pads.len() ==> (#[trigger] item.children@[i] matches FootprintChild::Pad(pad)
            && is_pad_item(pad, pads[i], placement.pads@[i], codes))
    &&& forall|i: int|
        pads.len() <= i < item.children@.len() ==> is_graphic_child(
            #[trigger] item.children@[i],
            graphics[i - pads.len()],
            placement.graphics@[i - pads.len()],
            placement.cardinal,
        )
}

pub open spec fn bad_identifier_text() -> Seq<char> {
    "footprint identifier must use Library:Footprint syntax"@
}

fn build_field(name: &str, said: &str, placed: &PlacedText, layer: &str, visible: bool) -> (r:
    FieldItem)
    ensures
        is_field_item(r, name@, said@, *placed, layer@, visible),
{
    FieldItem {
        name: name.to_owned(),
        text: said.to_owned(),
        position: placed.position,
        size: Vector2 { x_nm: 1_000_000, y_nm: 1_000_000 },
        angle: placed.angle,
        layer: if text::same(layer, "B.Cu") {
            "B.SilkS".to_owned()
        } else {
            "F.SilkS".to_owned()
        },
        visible,
    }
}

impl KiCadIpcClient {
    /// Puts a footprint together from its library definition and its placement. It fails
    /// exactly where the identifier is not of the form `Library:Footprint`.
    pub fn build_footprint_item(
        &self,
        lib_id: &str,
        reference: &str,
        value: &str,
        pads: &Vec<IpcPadDefinition>,
        graphics: &Vec<IpcGraphicDefinition>,
        placement: &Placement,
        layer: &str,
        codes: &LayerCodes,
    ) -> (r: Result<FootprintItem, IpcError>)
        requires
            fits(*placement, pads@, graphics@),
        ensures
            match r {
                Ok(item) => is_footprint_item(
                    item,
                    lib_id@,
                    reference@,
                    value@,
                    pads@,
                    graphics@,
                    *placement,
                    layer@,
                    *codes,
                ),
                Err(error) => find(lib_id@, ":"@) is None && error.deep_view() == plain(
                    bad_identifier_text(),
                ),
            },
    {
        let id_chars = text::chars_of(lib_id);
        let separator = text::chars_of(":");
        let colon: usize = match text::find_after(&id_chars, &separator, 0) {
            Some(colon) => colon,
            None => {
                return Err(IpcError::say("footprint identifier must use Library:Footprint syntax"));
            },
        };
        proof {
            reveal_strlit(":");
            text::lemma_find_is_first(lib_id@, ":"@, 0);
        }
        let total: usize = id_chars.len();
        let library_nickname = lib_id.substring_char(0, colon).to_owned();
        let entry_name = lib_id.substring_char(colon + 1, total).to_owned();
        assert(library_nickname@ == lib_id@.take(colon as int));
        assert(entry_name@ == lib_id@.skip(colon + 1));
        let mut children: Vec<FootprintChild> = Vec::new();
        let mut i: usize = 0;
        while i < pads.len()
            invariant
                i <= pads@.len(),
                fits(*placement, pads@, graphics@),
                children@.len() == i,
                forall|j: int|
                    0 <= j < i ==> (#[trigger] children@[j] matches FootprintChild::Pad(pad)
                        && is_pad_item(pad, pads@[j], placement.pads@[j], *codes)),
            decreases pads@.len() - i,
        {
            children.push(FootprintChild::Pad(build_pad(&pads[i], &placement.pads[i], codes)));
            i += 1;
        }
        let mut k: usize = 0;
        while k < graphics.len()
            invariant
                k <= graphics@.len(),
                fits(*placement, pads@, graphics@),
                children@.len() == pads@.len() + k,
                forall|j: int|
                    0 <= j < pads@.len() ==> (#[trigger] children@[j] matches FootprintChild::Pad(
                        pad,
                    ) && is_pad_item(pad, pads@[j], placement.pads@[j], *codes)),
                forall|j: int|
                    pads@.len() <= j < children@.len() ==> is_graphic_child(
                        #[trigger] children@[j],
                        graphics@[j - pads@.len()],
                        placement.graphics@[j - pads@.len()],
                        placement.cardinal,
                    ),
            decreases graphics@.len() - k,
        {
            assert(placement.graphics@[k as int].points@.len() == spots_of(
                graphics@[k as int],
                placement.cardinal,
            ).len());
            children.push(
                build_graphic_child(&graphics[k], &placement.graphics[k], placement.cardinal),
            );
            k += 1;
        }
        Ok(
            FootprintItem {
                library_nickname,
                entry_name,
                position: placement.position,
                orientation: placement.orientation,
                layer: layer.to_owned(),
                reference: build_field(
                    "Reference",
                    reference,
                    &placement.reference,
                    layer,
                    true,
                ),
                value: build_field("Value", value, &placement.value, layer, false),
                children,
            },
        )
    }
}

/// Each pad of a footprint has the front copper layer as its copper layer, on whichever side
/// it lies, and lists its layers in order, each once and none undefined. KiCad refuses a
/// normal stack with any other copper layer.
pub proof fn every_pad_stack_is_normal(
    item: FootprintItem,
    lib_id: Seq<char>,
    reference: Seq<char>,
    value: Seq<char>,
    pads: Seq<IpcPadDefinition>,
    graphics: Seq<IpcGraphicDefinition>,
    placement: Placement,
    layer: Seq<char>,
    codes: LayerCodes,
)
    requires
        is_footprint_item(
            item,
            lib_id,
            reference,
            value,
            pads,
            graphics,
            placement,
            layer,
            codes,
        ),
    ensures
        forall|i: int|
            0 <= i < item.children@.len() ==> (#[trigger] item.children@[i] matches FootprintChild::Pad(
                pad,
            ) ==> pad.copper.layer == codes.f_cu && increasing(pad.layers@)
                && !pad.layers@.contains(codes.undefined)),
{
    assert forall|i: int| 0 <= i < item.children@.len() implies (
    #[trigger] item.children@[i] matches FootprintChild::Pad(pad) ==> pad.copper.layer == codes.f_cu
        && increasing(pad.layers@) && !pad.layers@.contains(codes.undefined)) by {
        if i >= pads.len() {
            assert(is_graphic_child(
                item.children@[i],
                graphics[i - pads.len()],
                placement.graphics@[i - pads.len()],
                placement.cardinal,
            ));
        }
    }
}

/// The list of a pad's layers is settled by its names.
pub proof fn layer_list_is_unique(
    a: Seq<i32>,
    b: Seq<i32>,
    names: Seq<String>,
    own: Seq<i32>,
    codes: LayerCodes,
)
    requires
        is_layer_list(a, names, own, codes),
        is_layer_list(b, names, own, codes),
    ensures
        a == b,
{
    lemma_increasing_same(a, b);
}

proof fn lemma_increasing_same(a: Seq<i32>, b: Seq<i32>)
    requires
        increasing(a),
        increasing(b),
        forall|c: i32| #[trigger] a.contains(c) <==> b.contains(c),
    ensures
        a == b,
    decreases a.len(),
{
    if a.len() == 0 {
        if b.len() > 0 {
            assert(b.contains(b[0]));
            assert(a.contains(b[0]) <==> b.contains(b[0]));
        }
    } else {
        assert(a.contains(a.last()));
        assert(b.contains(a.last()));
        assert(b.contains(b.last()));
        assert(a.contains(b.last()));
        let i = choose|i: int| 0 <= i < b.len() && b[i] == a.last();
        let j = choose|j: int| 0 <= j < a.len() && a[j] == b.last();
        assert(a.last() == b.last());
        let x = a.drop_last();
        let y = b.drop_last();
        assert forall|c: i32| #[trigger] x.contains(c) <==> y.contains(c) by {
            if x.contains(c) {
                let k = choose|k: int| 0 <= k < x.len() && x[k] == c;
                assert(a[k] == c);
                assert(a.contains(c));
                let m = choose|m: int| 0 <= m < b.len() && b[m] == c;
                assert(m < b.len() - 1);
                assert(y[m] == c);
            }
            if y.contains(c) {
                let k = choose|k: int| 0 <= k < y.len() && y[k] == c;
                assert(b[k] == c);
                assert(a.contains(c) <==> b.contains(c));
                let m = choose|m: int| 0 <= m < a.len() && a[m] == c;
                assert(m < a.len() - 1);
                assert(x[m] == c);
            }
        }
        lemma_increasing_same(x, y);
        assert(a == x.push(a.last()));
        assert(b == y.push(b.last()));
    }
}

} // verus!
