//! What contracts speak of, field by field.

use crate::board::{
    IdentifiedFootprint, IpcBoardEdgeGeometry, IpcBoardExtents, IpcBoardItemIdentity, IpcFootprint,
    IpcGeometryClass, IpcLayer, IpcNet, IpcPadGeometry, IpcPolygonGeometry, IpcRoutingGeometry,
    IpcRuleArea, IpcTrack, IpcTrackArc, IpcViaGeometry,
};
use crate::board_file::{Assignment, AssignmentView};
use crate::commit::CommitEnd;
use crate::error::{Cause, CauseView, IpcError};
use crate::flows::PadPlace;
use crate::json::{read_of, AllowedEndpointPad, Region, ToolError, ToolErrorView};
use crate::messages::{ComponentView, Item, PackedItem, PathComponent, Vector2};
use crate::requests::{
    AddViaRequest, AssignNetRequest, CopperPourRequest, DiffPairRequest, ModifyTraceRequest,
    NetclassRequest, PadToPadRequest, TraceQueryRequest, TraceRequest,
};
use crate::route_check::RouteRequest;
use crate::scalar::{Point, Scalar};
use crate::step::{seen, Kiid, Progress, Step};
use crate::tools::ToolDef;
use crate::via_check::ViaRequest;
use vstd::prelude::*;

verus! {

/// What contracts speak of as a net, a footprint, a track, a via, a layer or a pad holds what
/// the value's own fields hold, each in its place.
pub proof fn board_items_are_spoken_of_by_their_fields(
    net: IpcNet,
    footprint: IpcFootprint,
    identified: IdentifiedFootprint,
    track: IpcTrack,
    arc: IpcTrackArc,
    hole: IpcViaGeometry,
    layer: IpcLayer,
    pad: IpcPadGeometry,
)
    ensures
        net.deep_view().name == net.name@,
        net.deep_view().netcode == net.netcode,
        footprint.deep_view().reference == footprint.reference@,
        footprint.deep_view().value == footprint.value@,
        footprint.deep_view().footprint == footprint.footprint@,
        footprint.deep_view().position == footprint.position,
        footprint.deep_view().rotation == footprint.rotation,
        footprint.deep_view().layer == footprint.layer@,
        identified.deep_view().footprint == identified.footprint.deep_view(),
        identified.deep_view().kiid == identified.kiid@,
        track.deep_view().kiid == track.kiid@,
        track.deep_view().net_name == track.net_name@,
        track.deep_view().layer == track.layer@,
        track.deep_view().width_nm == track.width_nm,
        track.deep_view().start == track.start,
        track.deep_view().end == track.end,
        arc.deep_view().net_name == arc.net_name@,
        arc.deep_view().layer == arc.layer@,
        arc.deep_view().width_nm == arc.width_nm,
        arc.deep_view().start == arc.start,
        arc.deep_view().mid == arc.mid,
        arc.deep_view().end == arc.end,
        hole.deep_view().kiid == hole.kiid@,
        hole.deep_view().position == hole.position,
        hole.deep_view().size == hole.size,
        hole.deep_view().drill == hole.drill,
        hole.deep_view().layers == hole.layers.deep_view(),
        hole.deep_view().net_name == hole.net_name@,
        hole.deep_view().net_id == hole.net_id,
        layer.deep_view().name == layer.name@,
        layer.deep_view().id == layer.id,
        layer.deep_view().kind == layer.kind@,
        pad.deep_view().reference == pad.reference@,
        pad.deep_view().number == pad.number@,
        pad.deep_view().position == pad.position,
        pad.deep_view().size == pad.size,
        pad.deep_view().shape == pad.shape.deep_view(),
        pad.deep_view().rotation == pad.rotation,
        pad.deep_view().corner_rounding_ratio == pad.corner_rounding_ratio,
        pad.deep_view().geometry_supported == pad.geometry_supported,
        pad.deep_view().geometry_reason == pad.geometry_reason.deep_view(),
        pad.deep_view().layers == pad.layers.deep_view(),
        pad.deep_view().net_name == pad.net_name@,
        pad.deep_view().net_id == pad.net_id,
{
}

/// The same of areas, outlines and identities, and of the geometry as a whole: each class stands
/// under its own name.
pub proof fn areas_and_geometry_are_spoken_of_by_their_fields<T: DeepView>(
    area: IpcRuleArea,
    identity: IpcBoardItemIdentity,
    polygon: IpcPolygonGeometry,
    class: IpcGeometryClass<T>,
    geometry: IpcRoutingGeometry,
)
    ensures
        area.deep_view().kiid == area.kiid@,
        area.deep_view().name == area.name@,
        area.deep_view().layers == area.layers.deep_view(),
        area.deep_view().bounds == area.bounds.deep_view(),
        area.deep_view().keepout_copper == area.keepout_copper,
        area.deep_view().keepout_vias == area.keepout_vias,
        area.deep_view().keepout_tracks == area.keepout_tracks,
        area.deep_view().keepout_pads == area.keepout_pads,
        area.deep_view().keepout_footprints == area.keepout_footprints,
        area.deep_view().owner == area.owner@,
        area.deep_view().footprint_kiid == area.footprint_kiid.deep_view(),
        area.deep_view().footprint_reference == area.footprint_reference.deep_view(),
        identity.deep_view().kiid == identity.kiid@,
        identity.deep_view().item_type == identity.item_type@,
        identity.deep_view().reference == identity.reference.deep_view(),
        identity.deep_view().pad == identity.pad.deep_view(),
        identity.deep_view().net == identity.net.deep_view(),
        identity.deep_view().layer == identity.layer.deep_view(),
        identity.deep_view().position == identity.position,
        polygon.deep_view().object_type == polygon.object_type@,
        polygon.deep_view().reference == polygon.reference.deep_view(),
        polygon.deep_view().layer == polygon.layer@,
        polygon.deep_view().net_name == polygon.net_name.deep_view(),
        polygon.deep_view().net_id == polygon.net_id,
        polygon.deep_view().polygons == polygon.polygons.deep_view(),
        class.deep_view().available == class.available,
        class.deep_view().items == class.items.deep_view(),
        class.deep_view().reason == class.reason.deep_view(),
        geometry.deep_view().layers == geometry.layers.deep_view(),
        geometry.deep_view().board_extents == geometry.board_extents.deep_view(),
        geometry.deep_view().footprints == geometry.footprints.deep_view(),
        geometry.deep_view().pads == geometry.pads.deep_view(),
        geometry.deep_view().tracks == geometry.tracks.deep_view(),
        geometry.deep_view().track_arcs == geometry.track_arcs.deep_view(),
        geometry.deep_view().vias == geometry.vias.deep_view(),
        geometry.deep_view().courtyards == geometry.courtyards.deep_view(),
        geometry.deep_view().zones == geometry.zones.deep_view(),
        geometry.deep_view().board_edges == geometry.board_edges.deep_view(),
{
}

/// The same of what a tool is asked for.
pub proof fn requests_are_spoken_of_by_their_fields(
    trace: TraceRequest,
    replacement: ModifyTraceRequest,
    query: TraceQueryRequest,
    route: PadToPadRequest,
    hole: AddViaRequest,
    pair: DiffPairRequest,
    class: NetclassRequest,
    assignment: AssignNetRequest,
    pour: CopperPourRequest,
    checked: RouteRequest,
    placed: ViaRequest,
    allowed: AllowedEndpointPad,
)
    ensures
        trace.deep_view().net_name == trace.net_name@,
        trace.deep_view().layer == trace.layer@,
        trace.deep_view().x1 == trace.x1,
        trace.deep_view().y1 == trace.y1,
        trace.deep_view().x2 == trace.x2,
        trace.deep_view().y2 == trace.y2,
        trace.deep_view().width == trace.width,
        replacement.deep_view().uuid == replacement.uuid@,
        replacement.deep_view().trace == replacement.trace.deep_view(),
        query.deep_view().net_name == query.net_name.deep_view(),
        query.deep_view().layer == query.layer.deep_view(),
        route.deep_view().net_name == route.net_name@,
        route.deep_view().ref1 == route.ref1@,
        route.deep_view().pad1 == route.pad1@,
        route.deep_view().ref2 == route.ref2@,
        route.deep_view().pad2 == route.pad2@,
        route.deep_view().layer == route.layer@,
        route.deep_view().width == route.width,
        hole.deep_view().net_name == hole.net_name@,
        hole.deep_view().x == hole.x,
        hole.deep_view().y == hole.y,
        hole.deep_view().drill == hole.drill,
        hole.deep_view().pad_size == hole.pad_size,
        pair.deep_view().net_pos == pair.net_pos@,
        pair.deep_view().net_neg == pair.net_neg@,
        pair.deep_view().layer == pair.layer@,
        pair.deep_view().x1 == pair.x1,
        pair.deep_view().y1 == pair.y1,
        pair.deep_view().x2 == pair.x2,
        pair.deep_view().y2 == pair.y2,
        pair.deep_view().width == pair.width,
        pair.deep_view().gap == pair.gap,
        class.deep_view().name == class.name@,
        class.deep_view().clearance == class.clearance,
        class.deep_view().trace_width == class.trace_width,
        class.deep_view().via_drill == class.via_drill,
        class.deep_view().via_diameter == class.via_diameter,
        assignment.deep_view().net_name == assignment.net_name@,
        assignment.deep_view().netclass == assignment.netclass@,
        pour.deep_view().net_name == pour.net_name@,
        pour.deep_view().layer == pour.layer@,
        pour.deep_view().clearance == pour.clearance,
        pour.deep_view().min_width == pour.min_width,
        pour.deep_view().points == pour.points@,
        checked.deep_view().points == checked.points.deep_view(),
        checked.deep_view().layer == checked.layer@,
        checked.deep_view().net == checked.net@,
        checked.deep_view().trace_width == checked.trace_width,
        checked.deep_view().required_clearance == checked.required_clearance,
        checked.deep_view().allowed_endpoint_pads == checked.allowed_endpoint_pads.deep_view(),
        placed.deep_view().x == placed.x,
        placed.deep_view().y == placed.y,
        placed.deep_view().diameter == placed.diameter,
        placed.deep_view().drill == placed.drill,
        placed.deep_view().required_clearance == placed.required_clearance,
        placed.deep_view().net == placed.net@,
        placed.deep_view().start_layer == placed.start_layer@,
        placed.deep_view().end_layer == placed.end_layer@,
        allowed.deep_view().reference == allowed.reference@,
        allowed.deep_view().pad == allowed.pad@,
{
}

/// The same of a tool.
pub proof fn tools_are_spoken_of_by_their_fields(
    tool: ToolDef,
)
    ensures
        tool.deep_view().name == tool.name,
        tool.deep_view().description == tool.description,
        tool.deep_view().params == tool.params@,
{
}

/// A step is spoken of by what it is: what to do next, or how it ended after how many replies.
pub proof fn steps_are_spoken_of_by_what_they_are<'a, T: DeepView>(step: Step<'a, T>)
    ensures
        match (step, step.deep_view()) {
            (Step::Next(task), Progress::Next(told)) => told == task,
            (Step::Done(Ok(value), used), Progress::Done(Ok(told), end)) => told
                == value.deep_view() && end == used,
            (Step::Done(Err(error), used), Progress::Done(Err(told), end)) => told
                == error.causes.deep_view() && end == used,
            _ => false,
        },
{
}

/// An error is spoken of by its causes, each by its own text or as the marker; what reading
/// arguments found amiss by its name or text.
pub proof fn errors_are_spoken_of_by_their_causes(cause: Cause, error: IpcError, refusal: ToolError)
    ensures
        match (cause, cause.deep_view()) {
            (Cause::Text(text), CauseView::Text(told)) => told == text@,
            (Cause::Unreachable(_), CauseView::Unreachable) => true,
            _ => false,
        },
        error.deep_view().len() == error.causes@.len(),
        forall|i: int|
            0 <= i < error.causes@.len() ==> #[trigger] error.deep_view()[i]
                == error.causes@[i].deep_view(),
        match (refusal, refusal.deep_view()) {
            (ToolError::MissingText(name), ToolErrorView::MissingText(told)) => told == name@,
            (ToolError::MissingNumber(name), ToolErrorView::MissingNumber(told)) => told == name@,
            (ToolError::Said(text), ToolErrorView::Said(told)) => told == text@,
            _ => false,
        },
{
}

/// A component of a path is spoken of by its kind and by the bytes of its name.
pub proof fn components_are_spoken_of_by_their_names(component: PathComponent)
    ensures
        match (component, component.deep_view()) {
            (PathComponent::Prefix(name), ComponentView::Prefix(told)) => told == name@,
            (PathComponent::Normal(name), ComponentView::Normal(told)) => told == name@,
            (PathComponent::RootDir, ComponentView::RootDir) => true,
            (PathComponent::CurDir, ComponentView::CurDir) => true,
            (PathComponent::ParentDir, ComponentView::ParentDir) => true,
            _ => false,
        },
{
}

/// A value that stands for itself in contracts is that value, and so is an assignment's text.
pub proof fn plain_values_stand_for_themselves<'a>(
    place: Vector2,
    number: Scalar,
    point: Point,
    region: Region,
    edge: IpcBoardEdgeGeometry,
    extents: IpcBoardExtents,
    item: Item,
    packed: PackedItem,
    id: Kiid<'a>,
    pad: PadPlace,
    end: CommitEnd,
    assignment: Assignment,
)
    ensures
        place.deep_view() == place && number.deep_view() == number && point.deep_view() == point,
        region.deep_view() == region && edge.deep_view() == edge,
        extents.deep_view() == extents && item.deep_view() == item,
        packed.deep_view() == packed && id.deep_view() == id,
        pad.deep_view() == pad && end.deep_view() == end,
        match (assignment, assignment.deep_view()) {
            (Assignment::Assigned(content), AssignmentView::Assigned(told)) => told == content@,
            (Assignment::AlreadyAssigned, AssignmentView::AlreadyAssigned) => true,
            _ => false,
        },
{
}

/// The results of the client and of reading arguments are spoken of case by case.
pub proof fn results_are_spoken_of_case_by_case<T: DeepView>(
    answer: Result<T, IpcError>,
    reading: Result<T, ToolError>,
)
    ensures
        match (answer, seen(answer)) {
            (Ok(value), Ok(told)) => told == value.deep_view(),
            (Err(error), Err(told)) => told == error.deep_view(),
            _ => false,
        },
        match (reading, read_of(reading)) {
            (Ok(value), Ok(told)) => told == value.deep_view(),
            (Err(error), Err(told)) => told == error.deep_view(),
            _ => false,
        },
{
}

} // verus!
