//! What the library reports of a board.
//!
//! Lengths are in nanometres. Each type has a view in which texts are sequences of
//! characters and lists are sequences; contracts speak of the views.

use crate::messages::Vector2;
use crate::scalar::Scalar;
use vstd::prelude::*;
use vstd::string::*;

verus! {

/// A net of the board.
#[derive(Debug)]
pub struct IpcNet {
    pub name: String,
    pub netcode: i32,
}

#[verifier::ext_equal]
pub struct NetView {
    pub name: Seq<char>,
    pub netcode: i32,
}

impl DeepView for IpcNet {
    type V = NetView;

    open spec fn deep_view(&self) -> NetView {
        NetView {
            name: self.name@,
            netcode: self.netcode,
        }
    }
}

/// A footprint on the board.
#[derive(Debug)]
pub struct IpcFootprint {
    pub reference: String,
    pub value: String,
    pub footprint: String,
    pub position: Vector2,
    pub rotation: Scalar,
    pub layer: String,
}

#[verifier::ext_equal]
pub struct FootprintView {
    pub reference: Seq<char>,
    pub value: Seq<char>,
    pub footprint: Seq<char>,
    pub position: Vector2,
    pub rotation: Scalar,
    pub layer: Seq<char>,
}

impl DeepView for IpcFootprint {
    type V = FootprintView;

    open spec fn deep_view(&self) -> FootprintView {
        FootprintView {
            reference: self.reference@,
            value: self.value@,
            footprint: self.footprint@,
            position: self.position,
            rotation: self.rotation,
            layer: self.layer@,
        }
    }
}

/// A footprint and the identifier that KiCad has for it.
#[derive(Debug)]
pub struct IdentifiedFootprint {
    pub footprint: IpcFootprint,
    pub kiid: String,
}

#[verifier::ext_equal]
pub struct IdentifiedFootprintView {
    pub footprint: FootprintView,
    pub kiid: Seq<char>,
}

impl DeepView for IdentifiedFootprint {
    type V = IdentifiedFootprintView;

    open spec fn deep_view(&self) -> IdentifiedFootprintView {
        IdentifiedFootprintView { footprint: self.footprint.deep_view(), kiid: self.kiid@ }
    }
}

/// A straight track.
#[derive(Debug)]
pub struct IpcTrack {
    pub kiid: String,
    pub net_name: String,
    pub layer: String,
    pub width_nm: i64,
    pub start: Vector2,
    pub end: Vector2,
}

#[verifier::ext_equal]
pub struct TrackView {
    pub kiid: Seq<char>,
    pub net_name: Seq<char>,
    pub layer: Seq<char>,
    pub width_nm: i64,
    pub start: Vector2,
    pub end: Vector2,
}

impl DeepView for IpcTrack {
    type V = TrackView;

    open spec fn deep_view(&self) -> TrackView {
        TrackView {
            kiid: self.kiid@,
            net_name: self.net_name@,
            layer: self.layer@,
            width_nm: self.width_nm,
            start: self.start,
            end: self.end,
        }
    }
}

/// A track in the form of an arc.
#[derive(Debug)]
pub struct IpcTrackArc {
    pub net_name: String,
    pub layer: String,
    pub width_nm: i64,
    pub start: Vector2,
    pub mid: Vector2,
    pub end: Vector2,
}

#[verifier::ext_equal]
pub struct TrackArcView {
    pub net_name: Seq<char>,
    pub layer: Seq<char>,
    pub width_nm: i64,
    pub start: Vector2,
    pub mid: Vector2,
    pub end: Vector2,
}

impl DeepView for IpcTrackArc {
    type V = TrackArcView;

    open spec fn deep_view(&self) -> TrackArcView {
        TrackArcView {
            net_name: self.net_name@,
            layer: self.layer@,
            width_nm: self.width_nm,
            start: self.start,
            mid: self.mid,
            end: self.end,
        }
    }
}

/// A via.
#[derive(Debug)]
pub struct IpcViaGeometry {
    pub kiid: String,
    pub position: Vector2,
    pub size: Option<Vector2>,
    pub drill: Option<Vector2>,
    pub layers: Vec<String>,
    pub net_name: String,
    pub net_id: i32,
}

#[verifier::ext_equal]
pub struct ViaView {
    pub kiid: Seq<char>,
    pub position: Vector2,
    pub size: Option<Vector2>,
    pub drill: Option<Vector2>,
    pub layers: Seq<Seq<char>>,
    pub net_name: Seq<char>,
    pub net_id: i32,
}

impl DeepView for IpcViaGeometry {
    type V = ViaView;

    open spec fn deep_view(&self) -> ViaView {
        ViaView {
            kiid: self.kiid@,
            position: self.position,
            size: self.size,
            drill: self.drill,
            layers: self.layers.deep_view(),
            net_name: self.net_name@,
            net_id: self.net_id,
        }
    }
}

/// A rule area: a zone that keeps things out.
#[derive(Debug)]
pub struct IpcRuleArea {
    pub kiid: String,
    pub name: String,
    pub layers: Vec<String>,
    pub bounds: Vec<Vec<Vector2>>,
    pub keepout_copper: bool,
    pub keepout_vias: bool,
    pub keepout_tracks: bool,
    pub keepout_pads: bool,
    pub keepout_footprints: bool,
    pub owner: String,
    pub footprint_kiid: Option<String>,
    pub footprint_reference: Option<String>,
}

#[verifier::ext_equal]
pub struct RuleAreaView {
    pub kiid: Seq<char>,
    pub name: Seq<char>,
    pub layers: Seq<Seq<char>>,
    pub bounds: Seq<Seq<Vector2>>,
    pub keepout_copper: bool,
    pub keepout_vias: bool,
    pub keepout_tracks: bool,
    pub keepout_pads: bool,
    pub keepout_footprints: bool,
    pub owner: Seq<char>,
    pub footprint_kiid: Option<Seq<char>>,
    pub footprint_reference: Option<Seq<char>>,
}

impl DeepView for IpcRuleArea {
    type V = RuleAreaView;

    open spec fn deep_view(&self) -> RuleAreaView {
        RuleAreaView {
            kiid: self.kiid@,
            name: self.name@,
            layers: self.layers.deep_view(),
            bounds: self.bounds.deep_view(),
            keepout_copper: self.keepout_copper,
            keepout_vias: self.keepout_vias,
            keepout_tracks: self.keepout_tracks,
            keepout_pads: self.keepout_pads,
            keepout_footprints: self.keepout_footprints,
            owner: self.owner@,
            footprint_kiid: self.footprint_kiid.deep_view(),
            footprint_reference: self.footprint_reference.deep_view(),
        }
    }
}

/// What an identifier on the board stands for.
#[derive(Debug)]
pub struct IpcBoardItemIdentity {
    pub kiid: String,
    pub item_type: String,
    pub reference: Option<String>,
    pub pad: Option<String>,
    pub net: Option<String>,
    pub layer: Option<String>,
    pub position: Option<Vector2>,
}

#[verifier::ext_equal]
pub struct IdentityView {
    pub kiid: Seq<char>,
    pub item_type: Seq<char>,
    pub reference: Option<Seq<char>>,
    pub pad: Option<Seq<char>>,
    pub net: Option<Seq<char>>,
    pub layer: Option<Seq<char>>,
    pub position: Option<Vector2>,
}

impl DeepView for IpcBoardItemIdentity {
    type V = IdentityView;

    open spec fn deep_view(&self) -> IdentityView {
        IdentityView {
            kiid: self.kiid@,
            item_type: self.item_type@,
            reference: self.reference.deep_view(),
            pad: self.pad.deep_view(),
            net: self.net.deep_view(),
            layer: self.layer.deep_view(),
            position: self.position,
        }
    }
}

/// A layer of the board.
#[derive(Debug)]
pub struct IpcLayer {
    pub name: String,
    pub id: i32,
    pub kind: String,
}

#[verifier::ext_equal]
pub struct LayerView {
    pub name: Seq<char>,
    pub id: i32,
    pub kind: Seq<char>,
}

impl DeepView for IpcLayer {
    type V = LayerView;

    open spec fn deep_view(&self) -> LayerView {
        LayerView {
            name: self.name@,
            id: self.id,
            kind: self.kind@,
        }
    }
}

/// A pad.
#[derive(Debug)]
pub struct IpcPadGeometry {
    pub reference: String,
    pub number: String,
    pub position: Vector2,
    pub size: Option<Vector2>,
    pub shape: Option<String>,
    pub rotation: Scalar,
    pub corner_rounding_ratio: Option<Scalar>,
    pub geometry_supported: bool,
    pub geometry_reason: Option<String>,
    pub layers: Vec<String>,
    pub net_name: String,
    pub net_id: i32,
}

#[verifier::ext_equal]
pub struct PadView {
    pub reference: Seq<char>,
    pub number: Seq<char>,
    pub position: Vector2,
    pub size: Option<Vector2>,
    pub shape: Option<Seq<char>>,
    pub rotation: Scalar,
    pub corner_rounding_ratio: Option<Scalar>,
    pub geometry_supported: bool,
    pub geometry_reason: Option<Seq<char>>,
    pub layers: Seq<Seq<char>>,
    pub net_name: Seq<char>,
    pub net_id: i32,
}

impl DeepView for IpcPadGeometry {
    type V = PadView;

    open spec fn deep_view(&self) -> PadView {
        PadView {
            reference: self.reference@,
            number: self.number@,
            position: self.position,
            size: self.size,
            shape: self.shape.deep_view(),
            rotation: self.rotation,
            corner_rounding_ratio: self.corner_rounding_ratio,
            geometry_supported: self.geometry_supported,
            geometry_reason: self.geometry_reason.deep_view(),
            layers: self.layers.deep_view(),
            net_name: self.net_name@,
            net_id: self.net_id,
        }
    }
}

/// The outline of a zone or of a courtyard.
#[derive(Debug)]
pub struct IpcPolygonGeometry {
    pub object_type: String,
    pub reference: Option<String>,
    pub layer: String,
    pub net_name: Option<String>,
    pub net_id: Option<i32>,
    pub polygons: Vec<Vec<Vector2>>,
}

#[verifier::ext_equal]
pub struct PolygonView {
    pub object_type: Seq<char>,
    pub reference: Option<Seq<char>>,
    pub layer: Seq<char>,
    pub net_name: Option<Seq<char>>,
    pub net_id: Option<i32>,
    pub polygons: Seq<Seq<Vector2>>,
}

impl DeepView for IpcPolygonGeometry {
    type V = PolygonView;

    open spec fn deep_view(&self) -> PolygonView {
        PolygonView {
            object_type: self.object_type@,
            reference: self.reference.deep_view(),
            layer: self.layer@,
            net_name: self.net_name.deep_view(),
            net_id: self.net_id,
            polygons: self.polygons.deep_view(),
        }
    }
}

/// A piece of the board's edge.
#[derive(Clone, Copy, Debug, PartialEq, Eq, Structural)]
pub enum IpcBoardEdgeGeometry {
    Line { start: Vector2, end: Vector2 },
    Arc { start: Vector2, mid: Vector2, end: Vector2 },
}

impl DeepView for IpcBoardEdgeGeometry {
    type V = IpcBoardEdgeGeometry;

    open spec fn deep_view(&self) -> IpcBoardEdgeGeometry {
        *self
    }
}

/// The box around all items: its least corner, and how far it reaches from there.
#[derive(Clone, Copy, Debug, PartialEq, Eq, Structural)]
pub struct IpcBoardExtents {
    pub min: Vector2,
    pub size: Vector2,
}

impl DeepView for IpcBoardExtents {
    type V = IpcBoardExtents;

    open spec fn deep_view(&self) -> IpcBoardExtents {
        *self
    }
}

/// Items of one class, or why they could not be had.
#[derive(Debug)]
pub struct IpcGeometryClass<T> {
    pub available: bool,
    pub items: T,
    pub reason: Option<String>,
}

#[verifier::ext_equal]
pub struct ClassView<V> {
    pub available: bool,
    pub items: V,
    pub reason: Option<Seq<char>>,
}

impl<T: DeepView> DeepView for IpcGeometryClass<T> {
    type V = ClassView<T::V>;

    open spec fn deep_view(&self) -> ClassView<T::V> {
        ClassView {
            available: self.available,
            items: self.items.deep_view(),
            reason: self.reason.deep_view(),
        }
    }
}

/// A class whose items could be had.
pub open spec fn class_available<V>(items: V) -> ClassView<V> {
    ClassView { available: true, items, reason: None }
}

/// A class whose items could not be had; `nothing` stands in their place.
pub open spec fn class_unavailable<V>(nothing: V, reason: Seq<char>) -> ClassView<V> {
    ClassView { available: false, items: nothing, reason: Some(reason) }
}

impl<T: Default> IpcGeometryClass<T> {
    pub fn available(items: T) -> (r: IpcGeometryClass<T>)
        ensures
            r.available,
            r.items == items,
            r.reason is None,
    {
        IpcGeometryClass { available: true, items, reason: None }
    }

    pub fn unavailable(reason: &str) -> (r: IpcGeometryClass<T>)
        ensures
            !r.available,
            call_ensures(T::default, (), r.items),
            r.reason.deep_view() == Some(reason@),
    {
        IpcGeometryClass { available: false, items: T::default(), reason: Some(reason.to_owned()) }
    }
}

/// What is known of a board for routing on it.
#[derive(Debug)]
pub struct IpcRoutingGeometry {
    pub layers: IpcGeometryClass<Vec<IpcLayer>>,
    pub board_extents: IpcGeometryClass<Option<IpcBoardExtents>>,
    pub footprints: IpcGeometryClass<Vec<IpcFootprint>>,
    pub pads: IpcGeometryClass<Vec<IpcPadGeometry>>,
    pub tracks: IpcGeometryClass<Vec<IpcTrack>>,
    pub track_arcs: IpcGeometryClass<Vec<IpcTrackArc>>,
    pub vias: IpcGeometryClass<Vec<IpcViaGeometry>>,
    pub courtyards: IpcGeometryClass<Vec<IpcPolygonGeometry>>,
    pub zones: IpcGeometryClass<Vec<IpcPolygonGeometry>>,
    pub board_edges: IpcGeometryClass<Vec<IpcBoardEdgeGeometry>>,
}

#[verifier::ext_equal]
pub struct RoutingView {
    pub layers: ClassView<Seq<LayerView>>,
    pub board_extents: ClassView<Option<IpcBoardExtents>>,
    pub footprints: ClassView<Seq<FootprintView>>,
    pub pads: ClassView<Seq<PadView>>,
    pub tracks: ClassView<Seq<TrackView>>,
    pub track_arcs: ClassView<Seq<TrackArcView>>,
    pub vias: ClassView<Seq<ViaView>>,
    pub courtyards: ClassView<Seq<PolygonView>>,
    pub zones: ClassView<Seq<PolygonView>>,
    pub board_edges: ClassView<Seq<IpcBoardEdgeGeometry>>,
}

impl DeepView for IpcRoutingGeometry {
    type V = RoutingView;

    open spec fn deep_view(&self) -> RoutingView {
        RoutingView {
            layers: self.layers.deep_view(),
            board_extents: self.board_extents.deep_view(),
            footprints: self.footprints.deep_view(),
            pads: self.pads.deep_view(),
            tracks: self.tracks.deep_view(),
            track_arcs: self.track_arcs.deep_view(),
            vias: self.vias.deep_view(),
            courtyards: self.courtyards.deep_view(),
            zones: self.zones.deep_view(),
            board_edges: self.board_edges.deep_view(),
        }
    }
}

} // verus!
