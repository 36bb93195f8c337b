//! What comes back from a call, argument by argument.

use crate::board::{IpcGeometryClass, IpcRoutingGeometry, IpcTrack, IpcViaGeometry};
use crate::board_file::{
    add_copper_pour, add_net, assign_net_to_class, assigned, closing_place, create_netclass,
    find_net_id, format_zone, net_number, netclass_place, netclass_text, zone_text, Assignment,
    CornerText, NetAdded,
};
use crate::clearance::{
    calculate_clearance, is_report, ClearanceReport, RouteMeasures, RouteQuery,
};
use crate::edits::Change;
use crate::envelope::{Delivery, Environment, KiCadIpcClient, Sending};
use crate::error::{IpcError, IpcFailure};
use crate::flows::{
    find_pad_board_position, leg_orders, pad_place, pair_orders, plan_legs, trace_order,
    FootprintEntry, Leg, PadPlace, TrackOrder,
};
use crate::footprint_item::{
    is_footprint_item, pad_drill, reference_spot, value_spot, FieldSpot, FootprintItem,
    IpcFieldPlacement, IpcGraphicDefinition, IpcPadDefinition, LayerCodes, Placement,
};
use crate::gather::gather_indexed;
use crate::inspect::{is_kept, select_geometry, select_track_arcs, track_arc_kept, Kept, Places};
use crate::json::{read_of, AllowedEndpointPad, Region, ToolError};
use crate::laws::listing::names_board;
use crate::laws::looking::is_wanted;
use crate::laws::talking::{own_name, starts_so};
use crate::messages::{DocumentSpecifier, ItemKind, OpenDocument, PathFacts, Response, Vector2};
use crate::requests::{DiffPairRequest, PadToPadRequest, TraceRequest};
use crate::route_check::{check_route_clearance, is_route_check, CorridorMeasures, RouteCheck};
use crate::scalar::{Point, Scalar};
use crate::step::{seen, Command, CommitAction, Kiid, Reply, Step, Task};
use crate::text::{count_from, decimal};
use crate::tracks::{board_tracks, board_vias};
use crate::via_check::{check_via_clearance, is_via_check, ViaCheck, ViaMeasures};
use vstd::prelude::*;

verus! {

// The client.

/// Whether a text is the one that is set, empty where none is.
pub open spec fn is_setting(told: Seq<char>, set: Option<String>) -> bool {
    match set {
        Some(own) => told == own@,
        None => told.len() == 0,
    }
}

/// A client dials the path that it is given, or else the environment's; it has the
/// environment's token unless it is given its own, and is named by its process.
pub proof fn a_client_is_what_it_was_made_with(
    path: String,
    token: String,
    environment: &Environment,
    plain: KiCadIpcClient,
    own: KiCadIpcClient,
)
    requires
        call_ensures(KiCadIpcClient::new, (path, environment), plain),
        call_ensures(KiCadIpcClient::new_with_token, (path, token, environment), own),
    ensures
        path@.len() > 0 ==> plain.socket_path@ == path@ && own.socket_path@ == path@,
        path@.len() == 0 ==> is_setting(plain.socket_path@, environment.api_socket) && is_setting(
            own.socket_path@,
            environment.api_socket,
        ),
        is_setting(plain.kicad_token@, environment.api_token),
        own.kicad_token@ == token@,
        plain.client_name@ == "konnect-"@ + decimal(environment.process_id as nat),
        own.client_name@ == plain.client_name@,
{
}

/// What is delivered for a command goes to the client's own address, with its own token and
/// name, and says which command it is. Nothing is delivered without a socket path, nor twice.
pub proof fn a_command_is_delivered_for_its_client(
    client: &KiCadIpcClient,
    command: &Command,
    delivery: Option<Delivery>,
    sending: Sending,
)
    requires
        call_ensures(KiCadIpcClient::send_command, (client, command, delivery), sending),
    ensures
        sending is Deliver <==> client.socket_path@.len() > 0 && delivery is None,
        sending matches Sending::Deliver(envelope) ==> {
            &&& envelope.kicad_token@ == client.kicad_token@
            &&& envelope.client_name@ == client.client_name@
            &&& starts_so(client.socket_path@, "ipc://"@) || starts_so(
                client.socket_path@,
                "tcp://"@,
            ) || starts_so(client.socket_path@, "inproc://"@) || envelope.dial_url@ == "ipc://"@
                + client.socket_path@
            &&& starts_so(client.socket_path@, "ipc://"@) ==> envelope.dial_url@
                == client.socket_path@
            &&& exists|package: Seq<char>|
                envelope.type_url@ == "type.googleapis.com/"@ + #[trigger] (package + own_name(
                    *command,
                ))
        },
{
    crate::laws::talking::the_socket_is_dialled_by_its_path(*client);
    crate::laws::talking::a_command_goes_by_its_own_name(*command);
}

/// A failure is told apart by whether its request was delivered, and told in full.
pub proof fn a_failure_is_told_in_full(error: IpcError, failure: IpcFailure)
    requires
        call_ensures(IpcFailure::from_error, (error,), failure),
    ensures
        failure is Unreachable <==> crate::error::is_marked(error.deep_view()),
        match failure {
            IpcFailure::Unreachable(told) => told@ == crate::error::full_text(error.deep_view()),
            IpcFailure::Rejected(told) => told@ == crate::error::full_text(error.deep_view()),
        },
{
}

/// What came of a delivery is what the command's sender goes on with: the message of an answer
/// in order, or else the failure. Without a socket path it is a failure that says so.
pub proof fn a_finished_command_has_its_answer(
    client: &KiCadIpcClient,
    command: &Command,
    delivery: Option<Delivery>,
    sending: Sending,
)
    requires
        call_ensures(KiCadIpcClient::send_command, (client, command, delivery), sending),
    ensures
        sending matches Sending::Finished(reply) ==> match (delivery, reply) {
            (Some(Delivery::Answered(response)), Reply::Payload(got)) => response.message == Some(
                got,
            ) && (response.status matches Some(status) && status.ok),
            (Some(Delivery::Answered(response)), Reply::Empty) => response.message is None && (
            response.status matches Some(status) && status.ok),
            (_, Reply::Failed(error)) => client.socket_path@.len() == 0
                && crate::error::is_marked(error.deep_view()) || (delivery matches Some(d)
                && crate::envelope::concluded(*client, d) == Err::<
                Option<Response>,
                Seq<crate::error::CauseView>,
            >(error.deep_view())),
            _ => false,
        },
{
    if client.socket_path@.len() == 0 {
        assert(crate::error::undelivered(crate::envelope::unconfigured_text())[1]
            == crate::error::CauseView::Unreachable);
    }
}

/// A class of items that could be had holds them; one that could not says why.
pub proof fn a_class_holds_its_items_or_says_why<T: Default>(
    items: T,
    reason: &str,
    had: IpcGeometryClass<T>,
    missing: IpcGeometryClass<T>,
)
    requires
        call_ensures(IpcGeometryClass::<T>::available, (items,), had),
        call_ensures(IpcGeometryClass::<T>::unavailable, (reason,), missing),
    ensures
        had.available && had.items == items && had.reason is None,
        !missing.available && (missing.reason matches Some(told) && told@ == reason@),
{
}

// The board as a whole.

/// Saving and filling name the first open board, and are done where KiCad does not refuse.
pub proof fn plain_commands_are_what_they_are_called<'a>(
    client: &KiCadIpcClient,
    replies: &'a Vec<Reply>,
    at: usize,
    board: DocumentSpecifier,
    saved: Step<'a, ()>,
    filled: Step<'a, ()>,
)
    requires
        call_ensures(KiCadIpcClient::save_board, (client, replies, at), saved),
        call_ensures(KiCadIpcClient::refill_zones, (client, replies, at), filled),
        names_board(replies@, at as int, board),
    ensures
        replies@.len() == at + 1 ==> (saved matches Step::Next(
            Task::Send(Command::SaveDocument { document }),
        ) && *document == board),
        replies@.len() == at + 1 ==> (filled matches Step::Next(
            Task::Send(Command::RefillZones { board: named }),
        ) && *named == board),
        replies@.len() > at + 1 ==> (saved matches Step::Done(result, _) && (result is Err
            <==> replies@[at + 1] is Failed)),
        replies@.len() > at + 1 ==> (filled matches Step::Done(result, _) && (result is Err
            <==> replies@[at + 1] is Failed)),
{
}

/// An action is run under its own name, and a ping is answered by whether KiCad answered.
pub proof fn actions_and_pings_are_sent_as_such<'a>(
    client: &KiCadIpcClient,
    action: &'a str,
    replies: &'a Vec<Reply>,
    at: usize,
    ran: Step<'a, ()>,
    answered: Step<'a, bool>,
)
    requires
        call_ensures(KiCadIpcClient::run_action, (client, action, replies, at), ran),
        call_ensures(KiCadIpcClient::ping, (client, replies, at), answered),
    ensures
        at >= replies@.len() ==> (ran matches Step::Next(
            Task::Send(Command::RunAction { action: named }),
        ) && named@ == action@),
        at >= replies@.len() ==> (answered matches Step::Next(Task::Send(Command::Ping))),
        at < replies@.len() ==> (ran matches Step::Done(result, _) && (result is Err
            <==> replies@[at as int] is Failed)),
        at < replies@.len() ==> (answered matches Step::Done(Ok(alive), _) && (alive
            <==> !(replies@[at as int] is Failed))),
{
}

/// A board is active just where one of the open documents is it.
pub proof fn a_board_is_active_where_it_is_open<'a>(
    client: &KiCadIpcClient,
    requested: &PathFacts,
    replies: &'a Vec<Reply>,
    at: usize,
    documents: Vec<OpenDocument>,
    step: Step<'a, ()>,
)
    requires
        call_ensures(
            KiCadIpcClient::ensure_board_is_active,
            (client, requested, replies, at),
            step,
        ),
        at < replies@.len(),
        replies@[at as int] == Reply::Payload(Response::OpenDocuments(documents)),
    ensures
        step matches Step::Done(result, _) && (result is Ok <==> exists|k: int|
            0 <= k < documents@.len() && is_wanted(#[trigger] documents@[k], *requested)),
{
    crate::laws::looking::the_first_wanted_board_is_taken(
        *requested,
        replies@,
        at as int,
        documents,
    );
}

// Lists and changes.

/// Tracks are listed by the net and by the layer that are given, each for itself, and vias by
/// the net.
pub proof fn filters_are_taken_each_for_itself<'a, 'b>(
    client: &KiCadIpcClient,
    net: Option<&'b str>,
    layer: Option<&'b str>,
    replies: &'a Vec<Reply>,
    at: usize,
    tracks: Step<'a, Vec<IpcTrack>>,
    holes: Step<'a, Vec<IpcViaGeometry>>,
)
    requires
        call_ensures(KiCadIpcClient::get_tracks, (client, net, layer, replies, at), tracks),
        call_ensures(KiCadIpcClient::get_vias, (client, net, replies, at), holes),
    ensures
        tracks.deep_view() == board_tracks(
            net.deep_view(),
            layer.deep_view(),
            replies@,
            at as int,
        ),
        holes.deep_view() == board_vias(net.deep_view(), replies@, at as int),
{
}

/// A track and a via are added as they are given.
pub proof fn copper_is_added_as_it_is_given<'a>(
    client: &KiCadIpcClient,
    net_name: &'a str,
    layer: &'a str,
    width: Scalar,
    from: (Scalar, Scalar),
    to: (Scalar, Scalar),
    drill: Scalar,
    pad_size: Scalar,
    replies: &'a Vec<Reply>,
    at: usize,
    track: Step<'a, ()>,
    hole: Step<'a, ()>,
)
    requires
        call_ensures(
            KiCadIpcClient::add_track,
            (client, net_name, layer, width, from, to, replies, at),
            track,
        ),
        call_ensures(
            KiCadIpcClient::add_via,
            (client, net_name, from.0, from.1, drill, pad_size, replies, at),
            hole,
        ),
    ensures
        track.deep_view() == crate::edits::track_added(
            net_name,
            layer,
            width,
            from,
            to,
            replies@,
            at as int,
        ),
        hole.deep_view() == crate::edits::via_added(
            net_name,
            from.0,
            from.1,
            drill,
            pad_size,
            replies@,
            at as int,
        ),
{
}

/// A track is looked for among the tracks before it is deleted, and a via among the vias.
pub proof fn a_deletion_looks_among_its_own_kind<'a>(
    client: &KiCadIpcClient,
    uuid: &'a String,
    replies: &'a Vec<Reply>,
    at: usize,
    board: DocumentSpecifier,
    track: Step<'a, ()>,
    hole: Step<'a, ()>,
)
    requires
        call_ensures(KiCadIpcClient::delete_track, (client, uuid, replies, at), track),
        call_ensures(KiCadIpcClient::delete_via, (client, uuid, replies, at), hole),
    ensures
        names_board(replies@, at as int, board) && replies@.len() == at + 1 ==> {
            &&& track matches Step::Next(
                Task::Send(Command::GetItems { document, kind }),
            ) && *document == board && kind is Trace
            &&& hole matches Step::Next(
                Task::Send(Command::GetItems { document, kind }),
            ) && *document == board && kind is Via
        },
        track.deep_view() == crate::edits::item_deleted(
            uuid,
            ItemKind::Trace,
            "trace"@,
            replies@,
            at as int,
        ),
        hole.deep_view() == crate::edits::item_deleted(
            uuid,
            ItemKind::Via,
            "via"@,
            replies@,
            at as int,
        ),
{
}

/// A footprint is moved to the place, turned to the angle and given the value that are asked
/// for.
pub proof fn a_footprint_is_changed_as_it_was_asked<'a, 'b>(
    client: &KiCadIpcClient,
    reference: &'b str,
    to: Vector2,
    angle: Scalar,
    value: &'a str,
    replies: &'a Vec<Reply>,
    at: usize,
    moved: Step<'a, ()>,
    turned: Step<'a, ()>,
    valued: Step<'a, ()>,
)
    requires
        call_ensures(KiCadIpcClient::move_footprint, (client, reference, to, replies, at), moved),
        call_ensures(
            KiCadIpcClient::rotate_footprint,
            (client, reference, angle, replies, at),
            turned,
        ),
        call_ensures(
            KiCadIpcClient::set_footprint_value,
            (client, reference, value, replies, at),
            valued,
        ),
    ensures
        moved.deep_view() == crate::edits::footprint_changed(
            reference@,
            Change::Move(to),
            replies@,
            at as int,
        ),
        turned.deep_view() == crate::edits::footprint_changed(
            reference@,
            Change::Rotate(angle),
            replies@,
            at as int,
        ),
        valued.deep_view() == crate::edits::footprint_changed(
            reference@,
            Change::Value(value),
            replies@,
            at as int,
        ),
{
}

/// A commit is published with its description and dropped without one, under the identifier
/// that is given; ending it does what is asked.
pub proof fn a_commit_is_ended_as_it_was_asked<'a>(
    client: &KiCadIpcClient,
    id: Kiid<'a>,
    action: CommitAction,
    message: &'a str,
    replies: &'a Vec<Reply>,
    at: usize,
    published: Step<'a, ()>,
    taken_back: Step<'a, ()>,
    finished: Step<'a, ()>,
)
    requires
        call_ensures(KiCadIpcClient::push_commit, (client, id, message, replies, at), published),
        call_ensures(KiCadIpcClient::drop_commit, (client, id, replies, at), taken_back),
        call_ensures(
            KiCadIpcClient::end_commit,
            (client, id, action, message, replies, at),
            finished,
        ),
        at >= replies@.len(),
    ensures
        published matches Step::Next(Task::Send(Command::EndCommit { id: own, action: a, message: m }))
            && own == id.value && a is Commit && m@ == message@,
        taken_back matches Step::Next(Task::Send(Command::EndCommit { id: own, action: a, message: m }))
            && own == id.value && a is Drop && m@.len() == 0,
        finished matches Step::Next(Task::Send(Command::EndCommit { id: own, action: a, message: m }))
            && own == id.value && a == action && m@ == message@,
{
    reveal_strlit("");
}

// Orders.

/// A trace is ordered with its own net, layer, width and ends.
pub proof fn a_trace_is_ordered_as_it_was_asked_for<'a>(
    trace: &'a TraceRequest,
    order: TrackOrder<'a>,
)
    requires
        call_ensures(trace_order, (trace,), order),
    ensures
        order.net_name@ == trace.net_name@ && order.layer@ == trace.layer@,
        order.width == trace.width,
        order.from.x == trace.x1 && order.from.y == trace.y1,
        order.to.x == trace.x2 && order.to.y == trace.y2,
{
}

/// A route between pads is ordered piece by piece, from the one point to the other, on its own
/// net and layer and of its own width.
pub proof fn a_route_is_ordered_piece_by_piece<'a>(
    request: &'a PadToPadRequest,
    from: Point,
    to: Point,
    aligned: bool,
    legs: Vec<Leg>,
    orders: Vec<TrackOrder<'a>>,
)
    requires
        call_ensures(plan_legs, (from, to, aligned), legs),
        call_ensures(leg_orders, (request, &legs), orders),
    ensures
        orders@.len() == if aligned {
            1int
        } else {
            2
        },
        orders@[0].from == from && orders@.last().to == to,
        forall|i: int|
            0 <= i < orders@.len() ==> (#[trigger] orders@[i]).net_name@ == request.net_name@
                && orders@[i].layer@ == request.layer@ && orders@[i].width == request.width,
        !aligned ==> orders@[0].to == orders@[1].from && orders@[0].to.x == to.x
            && orders@[0].to.y == from.y,
{
    assert forall|i: int| 0 <= i < orders@.len() implies (#[trigger] orders@[i]).from
        == legs@[i].from && orders@[i].to == legs@[i].to && orders@[i].net_name@
        == request.net_name@ && orders@[i].layer@ == request.layer@ && orders@[i].width
        == request.width by {}
}

/// A pair is ordered as two tracks: its positive net along the one line, its negative net along
/// the other.
pub proof fn a_pair_is_ordered_net_by_net<'a>(
    request: &'a DiffPairRequest,
    positive: Leg,
    negative: Leg,
    orders: Vec<TrackOrder<'a>>,
)
    requires
        call_ensures(pair_orders, (request, positive, negative), orders),
    ensures
        orders@.len() == 2,
        orders@[0].net_name@ == request.net_pos@ && orders@[1].net_name@ == request.net_neg@,
        orders@[0].from == positive.from && orders@[0].to == positive.to,
        orders@[1].from == negative.from && orders@[1].to == negative.to,
        orders@[0].layer@ == request.layer@ && orders@[1].layer@ == request.layer@,
        orders@[0].width == request.width && orders@[1].width == request.width,
{
}

// Board files.

/// A net is added with the next number, in an entry right before the file's last closing
/// parenthesis.
pub proof fn a_net_is_added_with_the_next_number<'a>(
    content: &'a str,
    net_name: &'a str,
    added: NetAdded,
)
    requires
        call_ensures(add_net, (content, net_name), added),
    ensures
        added.net_id == count_from(content@, "(net "@, 0) as i32,
        added.net_id >= 0 ==> added.content@ == content@.take(closing_place(content@)) + (
        "\n  (net "@ + decimal(added.net_id as nat) + " \""@ + net_name@ + "\")"@) + content@.skip(
            closing_place(content@),
        ),
{
    crate::laws::files::a_net_is_written_with_its_number_and_name(added.net_id, net_name@);
}

/// A zone is written and put where the file is closed, with the number that the file has for
/// its net.
pub proof fn a_pour_is_put_where_the_file_is_closed<'a>(
    content: &'a str,
    net_name: &'a str,
    layer: &'a str,
    uuid: &'a str,
    clearance: &'a str,
    min_width: &'a str,
    corners: &'a Vec<CornerText>,
    net_id: i32,
    text: String,
    poured: String,
)
    requires
        call_ensures(find_net_id, (content, net_name), net_id),
        call_ensures(
            format_zone,
            (net_id, net_name, layer, uuid, clearance, min_width, corners),
            text,
        ),
        call_ensures(
            add_copper_pour,
            (content, net_name, layer, uuid, clearance, min_width, corners),
            poured,
        ),
    ensures
        net_id == net_number(content@, net_name@),
        text@ == zone_text(net_id, net_name@, layer@, uuid@, clearance@, min_width@, corners@),
        poured@ == content@.take(closing_place(content@)) + text@ + content@.skip(
            closing_place(content@),
        ),
{
}

/// A net class is put at its place with its own sizes, and a net into the class that is named.
pub proof fn a_net_class_is_added_and_filled_as_named<'a>(
    content: &'a str,
    name: &'a str,
    clearance: &'a str,
    trace_width: &'a str,
    via_drill: &'a str,
    via_diameter: &'a str,
    net_name: &'a str,
    created: String,
    put_in: Result<Assignment, ToolError>,
)
    requires
        call_ensures(
            create_netclass,
            (content, name, clearance, trace_width, via_drill, via_diameter),
            created,
        ),
        call_ensures(assign_net_to_class, (content, net_name, name), put_in),
    ensures
        created@ == content@.take(netclass_place(content@)) + netclass_text(
            name@,
            clearance@,
            trace_width@,
            via_drill@,
            via_diameter@,
        ) + content@.skip(netclass_place(content@)),
        read_of(put_in) == assigned(content@, net_name@, name@),
{
}

/// A pad is looked for by its number on the footprint with the reference.
pub proof fn a_pad_is_looked_for_on_its_footprint<'a>(
    footprints: &'a Vec<FootprintEntry>,
    reference: &'a str,
    number: &'a str,
    found: Result<PadPlace, IpcError>,
)
    requires
        call_ensures(find_pad_board_position, (footprints, reference, number), found),
    ensures
        seen(found) == pad_place(footprints@, reference@, number@),
{
}

// Checks.

/// A route is checked on the layer, for the net and with the exemptions that are given.
pub proof fn a_route_is_checked_as_it_was_asked<'a>(
    g: &'a IpcRoutingGeometry,
    layer: &'a str,
    net: &'a str,
    clearance: Scalar,
    allowed: &'a Vec<AllowedEndpointPad>,
    measures: &'a RouteMeasures,
    corridor: &'a CorridorMeasures,
    q: RouteQuery,
    report: ClearanceReport,
    check: RouteCheck,
)
    requires
        call_ensures(calculate_clearance, (g, layer, net, clearance, allowed, measures), report),
        call_ensures(
            check_route_clearance,
            (g, layer, net, clearance, allowed, measures, corridor),
            check,
        ),
        q.layer == layer@ && q.net == net@ && q.allowed == allowed.deep_view(),
    ensures
        is_report(report, g.deep_view(), q, *measures, clearance),
        is_route_check(check, g.deep_view(), q, clearance, *measures, *corridor),
{
}

/// A via is checked for its net, from its start layer to its end layer.
pub proof fn a_via_is_checked_as_it_was_asked<'a>(
    g: &'a IpcRoutingGeometry,
    net: &'a str,
    start: &'a str,
    end: &'a str,
    clearance: Scalar,
    m: &'a ViaMeasures,
    check: ViaCheck,
)
    requires
        call_ensures(check_via_clearance, (g, net, start, end, clearance, m), check),
    ensures
        is_via_check(check, g.deep_view(), net@, start@, end@, clearance, *m),
{
}

/// A part of a board is picked by the layer, the net and the region that are given.
pub proof fn a_part_is_picked_as_it_was_asked<'a>(
    g: &'a IpcRoutingGeometry,
    layer: Option<&'a str>,
    net: Option<&'a str>,
    region: Option<Region>,
    places: &'a Places,
    kept: Kept,
    arcs: Vec<usize>,
)
    requires
        call_ensures(select_geometry, (g, layer, net, region, places), kept),
        call_ensures(select_track_arcs, (g, layer, net), arcs),
    ensures
        is_kept(kept, g.deep_view(), layer.deep_view(), net.deep_view(), region, *places),
        arcs@ == gather_indexed(
            g.deep_view().track_arcs.items,
            track_arc_kept(layer.deep_view(), net.deep_view()),
        ),
{
}

// Placing.

/// The fields of a footprint stand where its library has them; without that, the reference one
/// millimetre above the anchor and the value one below, upright.
pub proof fn fields_stand_where_the_library_has_them<'a>(
    fields: &'a IpcFieldPlacement,
    reference: FieldSpot,
    value: FieldSpot,
)
    requires
        call_ensures(reference_spot, (fields,), reference),
        call_ensures(value_spot, (fields,), value),
    ensures
        fields.reference_at matches Some(own) ==> reference == own,
        fields.reference_at is None ==> reference.at.x.bits == 0 && reference.at.y.bits
            == 0xbff0_0000_0000_0000 && reference.rotation.bits == 0,
        fields.value_at matches Some(own) ==> value == own,
        fields.value_at is None ==> value.at.x.bits == 0 && value.at.y.bits
            == 0x3ff0_0000_0000_0000 && value.rotation.bits == 0,
{
}

/// A pad is drilled as its library has it, round where only one measure is given.
pub proof fn a_pad_is_drilled_as_its_library_has_it<'a>(
    pad: &'a IpcPadDefinition,
    drill: Option<Point>,
)
    requires
        call_ensures(pad_drill, (pad,), drill),
    ensures
        drill is Some <==> pad.drill_x is Some,
        drill matches Some(size) ==> Some(size.x) == pad.drill_x && match pad.drill_y {
            Some(y) => size.y == y,
            None => size.y == size.x,
        },
{
}

/// A footprint is built just where its identifier has a colon, with the reference and the value
/// each in its own field; the refusal says what an identifier looks like.
pub proof fn a_footprint_is_built_where_its_identifier_is_whole<'a>(
    client: &'a KiCadIpcClient,
    lib_id: &'a str,
    reference: &'a str,
    value: &'a str,
    pads: &'a Vec<IpcPadDefinition>,
    graphics: &'a Vec<IpcGraphicDefinition>,
    placement: &'a Placement,
    layer: &'a str,
    codes: &'a LayerCodes,
    built: Result<FootprintItem, IpcError>,
)
    requires
        call_ensures(
            KiCadIpcClient::build_footprint_item,
            (client, lib_id, reference, value, pads, graphics, placement, layer, codes),
            built,
        ),
    ensures
        built is Ok <==> lib_id@.contains(':'),
        built matches Ok(item) ==> is_footprint_item(
            item,
            lib_id@,
            reference@,
            value@,
            pads@,
            graphics@,
            *placement,
            layer@,
            *codes,
        ),
        built matches Err(error) ==> error.causes@.len() == 1 && error.deep_view()[0].text()
            == "footprint identifier must use Library:Footprint syntax"@,
{
    reveal_strlit(":");
    crate::laws::numbers::a_text_is_found_at_its_first_and_last_place(lib_id@, ":"@);
    if lib_id@.contains(':') {
        let j = choose|j: int| 0 <= j < lib_id@.len() && lib_id@[j] == ':';
        assert(lib_id@.subrange(j, j + 1) =~= ":"@);
        assert(crate::text::has_at(lib_id@, ":"@, j));
    }
    if let Some(k) = crate::text::find(lib_id@, ":"@) {
        assert(crate::text::has_at(lib_id@, ":"@, k));
        assert(lib_id@.subrange(k, k + 1)[0] == ':');
        assert(lib_id@[k] == ':');
    }
    if let Err(error) = built {
        assert(error.deep_view().len() == error.causes@.len());
    }
}

} // verus!
