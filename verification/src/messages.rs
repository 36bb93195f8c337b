//! What KiCad sends and is sent, as plain values.
//!
//! Lengths are in nanometres, as KiCad gives them. Angles and ratios are carried as `Scalar`.

use crate::scalar::Scalar;
use vstd::prelude::*;

verus! {

/// A point, or a pair of lengths.
#[derive(Clone, Copy, Debug, PartialEq, Eq, Structural)]
pub struct Vector2 {
    pub x_nm: i64,
    pub y_nm: i64,
}

impl DeepView for Vector2 {
    type V = Vector2;

    open spec fn deep_view(&self) -> Vector2 {
        *self
    }
}

/// The origin.
pub open spec fn origin_spec() -> Vector2 {
    Vector2 { x_nm: 0, y_nm: 0 }
}

pub fn origin() -> (r: Vector2)
    ensures
        r == origin_spec(),
{
    Vector2 { x_nm: 0, y_nm: 0 }
}

/// A board layer, as far as the library tells layers apart.
#[derive(Clone, Copy, Debug, PartialEq, Eq, Structural)]
pub enum BoardLayer {
    FCu,
    BCu,
    In1Cu,
    In2Cu,
    FSilkS,
    BSilkS,
    FMask,
    BMask,
    FPaste,
    BPaste,
    FCrtYd,
    BCrtYd,
    FFab,
    BFab,
    EdgeCuts,
    /// Any other layer, and any number that is no layer.
    Other,
}

/// The shape of a pad's copper.
#[derive(Clone, Copy, Debug, PartialEq, Eq, Structural)]
pub enum PadStackShape {
    Unknown,
    Circle,
    Rectangle,
    Oval,
    Trapezoid,
    Roundrect,
    Chamferedrect,
    Custom,
    /// A number that names no shape.
    Invalid,
}

#[derive(Debug)]
pub struct Net {
    pub name: String,
    pub code: Option<i32>,
}

#[derive(Debug)]
pub struct Track {
    pub id: Option<String>,
    pub start: Option<Vector2>,
    pub end: Option<Vector2>,
    pub width_nm: Option<i64>,
    pub layer: BoardLayer,
    pub net: Option<Net>,
}

#[derive(Debug)]
pub struct Arc {
    pub id: Option<String>,
    pub start: Option<Vector2>,
    pub mid: Option<Vector2>,
    pub end: Option<Vector2>,
    pub width_nm: Option<i64>,
    pub layer: BoardLayer,
    pub net: Option<Net>,
}

#[derive(Debug)]
pub struct PadStackLayer {
    pub shape: PadStackShape,
    pub size: Option<Vector2>,
    pub corner_rounding_ratio: Scalar,
}

#[derive(Debug)]
pub struct DrillProperties {
    pub diameter: Option<Vector2>,
}

#[derive(Debug)]
pub struct PadStack {
    pub layers: Vec<BoardLayer>,
    pub drill: Option<DrillProperties>,
    pub copper_layers: Vec<PadStackLayer>,
    pub angle: Option<Scalar>,
}

#[derive(Debug)]
pub struct Via {
    pub id: Option<String>,
    pub position: Option<Vector2>,
    pub pad_stack: Option<PadStack>,
    pub net: Option<Net>,
}

#[derive(Debug)]
pub struct Pad {
    pub id: Option<String>,
    pub number: String,
    pub position: Option<Vector2>,
    pub pad_stack: Option<PadStack>,
    pub net: Option<Net>,
}

/// A node of an outline.
#[derive(Clone, Copy, Debug)]
pub enum PolyLineNode {
    Point(Vector2),
    Arc,
    Unset,
}

#[derive(Debug)]
pub struct PolyLine {
    pub nodes: Vec<PolyLineNode>,
}

#[derive(Debug)]
pub struct PolygonWithHoles {
    pub outline: Option<PolyLine>,
}

#[derive(Debug)]
pub struct PolySet {
    pub polygons: Vec<PolygonWithHoles>,
}

#[derive(Debug)]
pub enum Geometry {
    Segment { start: Option<Vector2>, end: Option<Vector2> },
    Rectangle { top_left: Option<Vector2>, bottom_right: Option<Vector2> },
    Arc { start: Option<Vector2>, mid: Option<Vector2>, end: Option<Vector2> },
    Polygon(PolySet),
    /// A circle, a curve or any later kind.
    Other,
}

#[derive(Debug)]
pub struct GraphicShape {
    pub geometry: Option<Geometry>,
}

#[derive(Debug)]
pub struct BoardGraphicShape {
    pub layer: BoardLayer,
    pub shape: Option<GraphicShape>,
}

#[derive(Clone, Copy, Debug, PartialEq, Eq, Structural)]
pub struct RuleAreaSettings {
    pub keepout_copper: bool,
    pub keepout_vias: bool,
    pub keepout_tracks: bool,
    pub keepout_pads: bool,
    pub keepout_footprints: bool,
}

#[derive(Debug)]
pub enum ZoneSettings {
    Copper { net: Option<Net> },
    RuleArea(RuleAreaSettings),
}

#[derive(Debug)]
pub struct Zone {
    pub id: Option<String>,
    pub layers: Vec<BoardLayer>,
    pub outline: Option<PolySet>,
    pub name: String,
    pub settings: Option<ZoneSettings>,
}

#[derive(Debug)]
pub struct Text {
    pub text: String,
}

#[derive(Debug)]
pub struct BoardText {
    pub text: Option<Text>,
}

#[derive(Debug)]
pub struct Field {
    pub text: Option<BoardText>,
}

#[derive(Debug)]
pub struct LibraryIdentifier {
    pub library_nickname: String,
    pub entry_name: String,
}

/// What a footprint's child decodes to, as the message that its type names.
#[derive(Debug)]
pub enum ChildContent {
    Pad(Pad),
    Zone(Zone),
    Shape(BoardGraphicShape),
    /// It did not decode, and why.
    Undecodable(String),
    /// A kind that the library does not read.
    Other,
}

#[derive(Debug)]
pub struct ChildItem {
    pub type_url: String,
    pub content: ChildContent,
}

#[derive(Debug)]
pub struct Footprint {
    pub id: Option<LibraryIdentifier>,
    pub value_field: Option<Field>,
    pub items: Vec<ChildItem>,
}

#[derive(Debug)]
pub struct FootprintInstance {
    pub id: Option<String>,
    pub position: Option<Vector2>,
    pub orientation: Option<Scalar>,
    pub layer: BoardLayer,
    pub reference_field: Option<Field>,
    pub value_field: Option<Field>,
    pub definition: Option<Footprint>,
}

/// What an item decodes to, as the message of the kind that was asked for.
#[derive(Debug)]
pub enum ItemContent {
    Track(Track),
    Arc(Arc),
    Via(Via),
    Footprint(FootprintInstance),
    Zone(Zone),
    Shape(BoardGraphicShape),
    /// It did not decode, and why.
    Undecodable(String),
}

/// A board item: how it was packed, and what it holds.
#[derive(Debug)]
pub struct Item {
    pub type_url: String,
    pub value: Vec<u8>,
    pub content: ItemContent,
}

impl DeepView for Item {
    type V = Item;

    open spec fn deep_view(&self) -> Item {
        *self
    }
}

/// The kinds of board items that the library asks for.
#[derive(Clone, Copy, Debug, PartialEq, Eq, Structural)]
pub enum ItemKind {
    Trace,
    Arc,
    Via,
    Footprint,
    Zone,
    Shape,
}

#[derive(Debug)]
pub enum DocumentIdentifier {
    BoardFilename(String),
    /// Any other kind of document.
    Other,
}

#[derive(Debug)]
pub struct ProjectSpecifier {
    pub name: String,
    pub path: String,
}

/// An open document; `wire` is the message as KiCad sent it.
#[derive(Debug)]
pub struct DocumentSpecifier {
    pub identifier: Option<DocumentIdentifier>,
    pub project: Option<ProjectSpecifier>,
    pub wire: Vec<u8>,
}

impl DeepView for DocumentSpecifier {
    type V = DocumentSpecifier;

    open spec fn deep_view(&self) -> DocumentSpecifier {
        *self
    }
}

/// A component of a path. Names are the bytes that the file system has for them.
#[derive(Debug)]
pub enum PathComponent {
    /// A drive or a share.
    Prefix(Vec<u8>),
    RootDir,
    CurDir,
    ParentDir,
    Normal(Vec<u8>),
}

#[verifier::ext_equal]
pub enum ComponentView {
    Prefix(Seq<u8>),
    RootDir,
    CurDir,
    ParentDir,
    Normal(Seq<u8>),
}

impl DeepView for PathComponent {
    type V = ComponentView;

    open spec fn deep_view(&self) -> ComponentView {
        match *self {
            PathComponent::Prefix(name) => ComponentView::Prefix(name@),
            PathComponent::RootDir => ComponentView::RootDir,
            PathComponent::CurDir => ComponentView::CurDir,
            PathComponent::ParentDir => ComponentView::ParentDir,
            PathComponent::Normal(name) => ComponentView::Normal(name@),
        }
    }
}

/// What the file system says of a path: its components, the components of its canonical form
/// where it has one, and how it is shown.
#[derive(Debug)]
pub struct PathFacts {
    pub components: Vec<PathComponent>,
    pub canonical: Option<Vec<PathComponent>>,
    pub display: String,
}

/// An open document with the facts of its board path (of no meaning where it has none).
#[derive(Debug)]
pub struct OpenDocument {
    pub document: DocumentSpecifier,
    pub place: PathFacts,
}

impl DeepView for OpenDocument {
    type V = OpenDocument;

    open spec fn deep_view(&self) -> OpenDocument {
        *self
    }
}

/// The status of a request about items, with the name that KiCad gives it.
#[derive(Debug)]
pub struct RequestStatus {
    pub ok: bool,
    pub name: String,
}

#[derive(Clone, Copy, Debug, PartialEq, Eq, Structural)]
pub enum ItemStatusCode {
    IscOk,
    IscUnknown,
    Other,
}

#[derive(Debug)]
pub struct ItemStatus {
    pub code: ItemStatusCode,
    pub code_name: String,
    pub error_message: String,
}

/// The result for one item that was to be created.
#[derive(Debug)]
pub struct CreateResult {
    pub status: Option<ItemStatus>,
    /// Whether the created item came back.
    pub has_item: bool,
}

#[derive(Debug)]
pub struct UpdateResult {
    pub status: Option<ItemStatus>,
}

/// The result for one item that was to be deleted.
#[derive(Debug)]
pub struct DeleteResult {
    pub id: Option<String>,
    pub ok: bool,
    pub status_name: String,
}

/// A bounding box.
#[derive(Clone, Copy, Debug)]
pub struct Box2 {
    pub position: Option<Vector2>,
    pub size: Option<Vector2>,
}

/// An enabled layer: its number, and the name that KiCad's protocol has for it.
#[derive(Debug)]
pub struct EnabledLayer {
    pub id: i32,
    pub wire_name: String,
}

/// The payload of a response, as the message that the command calls for.
#[derive(Debug)]
pub enum Response {
    OpenDocuments(Vec<OpenDocument>),
    Nets(Vec<Net>),
    Items(Vec<Item>),
    Created { status: RequestStatus, results: Vec<CreateResult> },
    Updated { status: RequestStatus, results: Vec<UpdateResult> },
    Deleted { status: RequestStatus, results: Vec<DeleteResult> },
    CommitBegun { id: Option<String> },
    CommitEnded,
    BoundingBoxes(Vec<Box2>),
    EnabledLayers(Vec<EnabledLayer>),
    /// An item with an edit applied to it.
    Edited(PackedItem),
    /// A payload that no command of the library reads.
    Unread,
    /// It did not decode, and why.
    Undecodable(String),
}

impl DeepView for Response {
    type V = Response;

    open spec fn deep_view(&self) -> Response {
        *self
    }
}

/// A packed message: the address of its type, and its bytes.
#[derive(Debug)]
pub struct PackedItem {
    pub type_url: String,
    pub value: Vec<u8>,
}

impl DeepView for PackedItem {
    type V = PackedItem;

    open spec fn deep_view(&self) -> PackedItem {
        *self
    }
}

} // verus!
