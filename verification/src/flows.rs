//! What the routing tools do on the board, step by step.

use crate::board::{IpcRoutingGeometry, RoutingView};
use crate::edits::{item_deleted, track_added};
use crate::envelope::KiCadIpcClient;
use crate::error::{headline, plain, CauseView, IpcError};
use crate::geometry::routing_geometry;
use crate::messages::{DocumentSpecifier, ItemKind, PathFacts};
use crate::requests::{DiffPairRequest, PadToPadRequest, TraceRequest};
use crate::scalar::{zero, zero_spec, Point, Scalar};
use crate::session::open_board;
use crate::step::{followed, seen, Progress, Reply, Step};
use crate::text;
use vstd::prelude::*;
use vstd::string::*;

verus! {

/// What a tool says of a failed operation.
pub open spec fn ipc_error_text(error: Seq<CauseView>) -> Seq<char> {
    "KiCAD must be running with the board loaded (IPC error: "@ + headline(error) + ")"@
}

/// What a tool says of a failed operation.
pub fn describe_ipc_error(error: &IpcError) -> (r: String)
    ensures
        r@ == ipc_error_text(error.deep_view()),
{
    let mut out = "KiCAD must be running with the board loaded (IPC error: ".to_owned();
    let said = error.describe();
    out.append(said.as_str());
    out.append(")");
    out
}

// Looking at the board.

/// The routing geometry of a board that must be the one that KiCad has open.
pub open spec fn snapshot<'a>(board: PathFacts, replies: Seq<Reply>, at: int) -> Progress<
    'a,
    RoutingView,
> {
    followed(
        open_board(board, replies, at),
        |document: DocumentSpecifier, used: int| routing_geometry(replies, used),
    )
}

// Adding tracks.

/// A track that is to be added. Lengths are in millimetres.
#[derive(Clone, Copy, Debug)]
pub struct TrackOrder<'a> {
    pub net_name: &'a str,
    pub layer: &'a str,
    pub width: Scalar,
    pub from: Point,
    pub to: Point,
}

/// Adds one track.
pub open spec fn order_filled<'a>(order: TrackOrder<'a>, replies: Seq<Reply>, at: int) -> Progress<
    'a,
    (),
> {
    track_added(
        order.net_name,
        order.layer,
        order.width,
        (order.from.x, order.from.y),
        (order.to.x, order.to.y),
        replies,
        at,
    )
}

/// Adds tracks from the `i`-th on, one after another, as far as that succeeds.
pub open spec fn orders_filled<'a>(
    orders: Seq<TrackOrder<'a>>,
    i: int,
    replies: Seq<Reply>,
    at: int,
) -> Progress<'a, ()>
    decreases orders.len() - i,
{
    if i < 0 || i >= orders.len() {
        Progress::Done(Ok(()), at)
    } else {
        match order_filled(orders[i], replies, at) {
            Progress::Next(task) => Progress::Next(task),
            Progress::Done(Err(error), used) => Progress::Done(Err(error), used),
            Progress::Done(Ok(_), used) => orders_filled(orders, i + 1, replies, used),
        }
    }
}

/// Replaces a track by another one: nothing is added unless the old one was deleted.
pub open spec fn track_replaced<'a>(
    uuid: &'a String,
    order: TrackOrder<'a>,
    replies: Seq<Reply>,
    at: int,
) -> Progress<'a, ()> {
    followed(
        item_deleted(uuid, ItemKind::Trace, "trace"@, replies, at),
        |done: (), used: int| order_filled(order, replies, used),
    )
}

impl KiCadIpcClient {
    /// The routing geometry of a board that must be the one that KiCad has open.
    pub fn routing_snapshot<'a>(&self, board: &PathFacts, replies: &'a Vec<Reply>, at: usize) -> (r:
        Step<'a, IpcRoutingGeometry>)
        ensures
            r.deep_view() == snapshot(*board, replies@, at as int),
    {
        match self.ensure_board_is_active(board, replies, at) {
            Step::Next(task) => Step::Next(task),
            Step::Done(Err(error), used) => Step::Done(Err(error), used),
            Step::Done(Ok(_), used) => self.get_routing_geometry(replies, used),
        }
    }

    fn fill_order<'a>(&self, order: TrackOrder<'a>, replies: &'a Vec<Reply>, at: usize) -> (r: Step<
        'a,
        (),
    >)
        ensures
            r.deep_view() == order_filled(order, replies@, at as int),
    {
        self.add_track(
            order.net_name,
            order.layer,
            order.width,
            (order.from.x, order.from.y),
            (order.to.x, order.to.y),
            replies,
            at,
        )
    }

    /// Adds tracks one after another, as far as that succeeds.
    pub fn add_tracks<'a>(
        &self,
        orders: &Vec<TrackOrder<'a>>,
        replies: &'a Vec<Reply>,
        at: usize,
    ) -> (r: Step<'a, ()>)
        ensures
            r.deep_view() == orders_filled(orders@, 0, replies@, at as int),
    {
        let mut used: usize = at;
        let mut i: usize = 0;
        while i < orders.len()
            invariant
                i <= orders@.len(),
                orders_filled(orders@, 0, replies@, at as int) == orders_filled(
                    orders@,
                    i as int,
                    replies@,
                    used as int,
                ),
            decreases orders@.len() - i,
        {
            match self.fill_order(orders[i], replies, used) {
                Step::Next(task) => {
                    return Step::Next(task);
                },
                Step::Done(Err(error), end) => {
                    return Step::Done(Err(error), end);
                },
                Step::Done(Ok(_), end) => {
                    used = end;
                },
            }
            i += 1;
        }
        Step::Done(Ok(()), used)
    }

    /// Replaces a track: the old one is deleted, then the new one is added.
    pub fn replace_track<'a>(
        &self,
        uuid: &'a String,
        order: TrackOrder<'a>,
        replies: &'a Vec<Reply>,
        at: usize,
    ) -> (r: Step<'a, ()>)
        ensures
            r.deep_view() == track_replaced(uuid, order, replies@, at as int),
    {
        match self.delete_track(uuid, replies, at) {
            Step::Next(task) => Step::Next(task),
            Step::Done(Err(error), used) => Step::Done(Err(error), used),
            Step::Done(Ok(_), used) => self.fill_order(order, replies, used),
        }
    }
}

/// A track is reported as replaced only where the old one was deleted and the new one was
/// created after that. Where the deletion failed, nothing was added.
pub proof fn nothing_is_added_before_the_deletion(
    uuid: String,
    order: TrackOrder,
    replies: Seq<Reply>,
    at: int,
)
    ensures
        track_replaced(&uuid, order, replies, at) matches Progress::Done(Ok(_), used) ==> {
            &&& item_deleted(
                &uuid,
                ItemKind::Trace,
                "trace"@,
                replies,
                at,
            ) matches Progress::Done(Ok(_), at2)
            &&& order_filled(order, replies, at2) matches Progress::Done(Ok(_), end)
            &&& end == used
        },
        item_deleted(&uuid, ItemKind::Trace, "trace"@, replies, at) matches Progress::Done(
            Err(error),
            used,
        ) ==> track_replaced(&uuid, order, replies, at) == Progress::Done(
            Err::<(), Seq<CauseView>>(error),
            used,
        ),
{
}

// A route between two points.

/// A straight piece of a route.
#[derive(Clone, Copy, Debug, PartialEq, Eq, Structural)]
pub struct Leg {
    pub from: Point,
    pub to: Point,
}

/// The pieces of a route between two points. Where they are aligned it is one piece; else it
/// goes along x first and then along y.
pub open spec fn legs_between(from: Point, to: Point, aligned: bool) -> Seq<Leg> {
    if aligned {
        seq![Leg { from, to }]
    } else {
        let bend = Point { x: to.x, y: from.y };
        seq![Leg { from, to: bend }, Leg { from: bend, to }]
    }
}

/// The pieces of a route between two points.
pub fn plan_legs(from: Point, to: Point, aligned: bool) -> (r: Vec<Leg>)
    ensures
        r@ == legs_between(from, to, aligned),
{
    if aligned {
        let legs = vec![Leg { from, to }];
        assert(legs@ == legs_between(from, to, aligned));
        legs
    } else {
        let bend = Point { x: to.x, y: from.y };
        let legs = vec![Leg { from, to: bend }, Leg { from: bend, to }];
        assert(legs@ == legs_between(from, to, aligned));
        legs
    }
}

/// The pieces start at the one point, end at the other and join; those of a bend run along
/// an axis.
pub proof fn legs_join_the_points(from: Point, to: Point, aligned: bool)
    ensures
        ({
            let legs = legs_between(from, to, aligned);
            &&& 1 <= legs.len() <= 2
            &&& legs[0].from == from
            &&& legs.last().to == to
            &&& forall|i: int|
                0 < i < legs.len() ==> (#[trigger] legs[i]).from == legs[i - 1].to
            &&& !aligned ==> forall|i: int|
                0 <= i < legs.len() ==> (#[trigger] legs[i]).from.y == legs[i].to.y
                    || legs[i].from.x == legs[i].to.x
        }),
{
}

// What is ordered for a request.

/// Whether an order is for a track of this net along this line.
pub open spec fn is_order(
    order: TrackOrder,
    net_name: Seq<char>,
    layer: Seq<char>,
    width: Scalar,
    line: Leg,
) -> bool {
    &&& order.net_name@ == net_name
    &&& order.layer@ == layer
    &&& order.width == width
    &&& order.from == line.from
    &&& order.to == line.to
}

/// The track of a trace that is asked for.
pub fn trace_order<'a>(trace: &'a TraceRequest) -> (r: TrackOrder<'a>)
    ensures
        is_order(
            r,
            trace.net_name@,
            trace.layer@,
            trace.width,
            (Leg {
                from: Point { x: trace.x1, y: trace.y1 },
                to: Point { x: trace.x2, y: trace.y2 },
            }),
        ),
{
    TrackOrder {
        net_name: trace.net_name.as_str(),
        layer: trace.layer.as_str(),
        width: trace.width,
        from: Point { x: trace.x1, y: trace.y1 },
        to: Point { x: trace.x2, y: trace.y2 },
    }
}

/// The tracks of a route between two pads: one for each piece, in order.
pub fn leg_orders<'a>(request: &'a PadToPadRequest, legs: &Vec<Leg>) -> (r: Vec<TrackOrder<'a>>)
    ensures
        r@.len() == legs@.len(),
        forall|i: int|
            0 <= i < legs@.len() ==> is_order(
                #[trigger] r@[i],
                request.net_name@,
                request.layer@,
                request.width,
                legs@[i],
            ),
{
    let mut orders: Vec<TrackOrder<'a>> = Vec::new();
    let mut i: usize = 0;
    while i < legs.len()
        invariant
            i <= legs@.len(),
            orders@.len() == i,
            forall|k: int|
                0 <= k < i ==> is_order(
                    #[trigger] orders@[k],
                    request.net_name@,
                    request.layer@,
                    request.width,
                    legs@[k],
                ),
        decreases legs@.len() - i,
    {
        orders.push(
            TrackOrder {
                net_name: request.net_name.as_str(),
                layer: request.layer.as_str(),
                width: request.width,
                from: legs[i].from,
                to: legs[i].to,
            },
        );
        i += 1;
    }
    orders
}

/// The tracks of a differential pair: the positive net along its line and then the negative
/// net along its own, both on the layer and of the width that are asked for.
pub fn pair_orders<'a>(request: &'a DiffPairRequest, positive: Leg, negative: Leg) -> (r: Vec<
    TrackOrder<'a>,
>)
    ensures
        r@.len() == 2,
        is_order(r@[0], request.net_pos@, request.layer@, request.width, positive),
        is_order(r@[1], request.net_neg@, request.layer@, request.width, negative),
{
    let layer = request.layer.as_str();
    let width = request.width;
    vec![
        TrackOrder {
            net_name: request.net_pos.as_str(),
            layer,
            width,
            from: positive.from,
            to: positive.to,
        },
        TrackOrder {
            net_name: request.net_neg.as_str(),
            layer,
            width,
            from: negative.from,
            to: negative.to,
        },
    ]
}

/// A pair of tracks is added one by one: the second is begun only once the first was created,
/// and the pair is done where both were.
pub proof fn a_pair_is_added_in_order<'a>(
    orders: Seq<TrackOrder<'a>>,
    replies: Seq<Reply>,
    at: int,
)
    requires
        orders.len() == 2,
    ensures
        orders_filled(orders, 0, replies, at) == followed(
            order_filled(orders[0], replies, at),
            |done: (), used: int| order_filled(orders[1], replies, used),
        ),
{
    reveal_with_fuel(orders_filled, 3);
}

// Pads in a board file.

/// The numbers of a place: where, and turned by how much.
#[derive(Clone, Copy, Debug)]
pub struct PlaceEntry {
    pub x: Option<Scalar>,
    pub y: Option<Scalar>,
    pub rotation: Option<Scalar>,
}

/// A property of a footprint in a board file.
#[derive(Debug)]
pub struct PropertyEntry {
    pub name: Option<String>,
    pub value: Option<String>,
}

/// A pad of a footprint in a board file.
#[derive(Debug)]
pub struct PadEntry {
    pub number: Option<String>,
    pub at: Option<PlaceEntry>,
}

/// A footprint in a board file.
#[derive(Debug)]
pub struct FootprintEntry {
    pub properties: Vec<PropertyEntry>,
    pub at: Option<PlaceEntry>,
    pub pads: Vec<PadEntry>,
}

/// Where a pad is: its place in the footprint, and the footprint's place on the board.
#[derive(Clone, Copy, Debug, PartialEq, Eq, Structural)]
pub struct PadPlace {
    pub local: Point,
    pub anchor: Point,
    pub rotation: Scalar,
}

impl DeepView for PadPlace {
    type V = PadPlace;

    open spec fn deep_view(&self) -> PadPlace {
        *self
    }
}

pub open spec fn or_zero(value: Option<Scalar>) -> Scalar {
    match value {
        Some(v) => v,
        None => zero_spec(),
    }
}

fn value_or_zero(value: Option<Scalar>) -> (r: Scalar)
    ensures
        r == or_zero(value),
{
    match value {
        Some(v) => v,
        None => zero(),
    }
}

pub open spec fn is_reference(property: PropertyEntry, reference: Seq<char>) -> bool {
    property.name.deep_view() == Some("Reference"@) && property.value.deep_view() == Some(reference)
}

/// Whether a footprint has a reference.
pub open spec fn bears(footprint: FootprintEntry, reference: Seq<char>) -> bool {
    exists|i: int|
        0 <= i < footprint.properties@.len() && is_reference(
            #[trigger] footprint.properties@[i],
            reference,
        )
}

/// The first footprint at or after `i` with a reference.
pub open spec fn footprint_from(
    footprints: Seq<FootprintEntry>,
    reference: Seq<char>,
    i: int,
) -> Option<FootprintEntry>
    decreases footprints.len() - i,
{
    if i < 0 || i >= footprints.len() {
        None
    } else if bears(footprints[i], reference) {
        Some(footprints[i])
    } else {
        footprint_from(footprints, reference, i + 1)
    }
}

/// The first pad at or after `i` with a number.
pub open spec fn pad_from(pads: Seq<PadEntry>, number: Seq<char>, i: int) -> Option<PadEntry>
    decreases pads.len() - i,
{
    if i < 0 || i >= pads.len() {
        None
    } else if pads[i].number.deep_view() == Some(number) {
        Some(pads[i])
    } else {
        pad_from(pads, number, i + 1)
    }
}

/// Where a pad of a footprint is.
pub open spec fn pad_place(
    footprints: Seq<FootprintEntry>,
    reference: Seq<char>,
    number: Seq<char>,
) -> Result<PadPlace, Seq<CauseView>> {
    match footprint_from(footprints, reference, 0) {
        None => Err(plain("Footprint '"@ + reference + "' not found on board"@)),
        Some(footprint) => match pad_from(footprint.pads@, number, 0) {
            None => Err(plain("Pad '"@ + number + "' not found on '"@ + reference + "'"@)),
            Some(pad) => match pad.at {
                None => Err(plain("Pad has no (at) node"@)),
                Some(at) => Ok(
                    PadPlace {
                        local: Point { x: or_zero(at.x), y: or_zero(at.y) },
                        anchor: match footprint.at {
                            Some(place) => Point { x: or_zero(place.x), y: or_zero(place.y) },
                            None => Point { x: zero_spec(), y: zero_spec() },
                        },
                        rotation: match footprint.at {
                            Some(place) => or_zero(place.rotation),
                            None => zero_spec(),
                        },
                    },
                ),
            },
        },
    }
}

fn is_text(value: &Option<String>, wanted: &str) -> (r: bool)
    ensures
        r == (value.deep_view() == Some(wanted@)),
{
    match value {
        Some(t) => text::same(t.as_str(), wanted),
        None => false,
    }
}

fn footprint_bears(footprint: &FootprintEntry, reference: &str) -> (r: bool)
    ensures
        r == bears(*footprint, reference@),
{
    let mut i: usize = 0;
    while i < footprint.properties.len()
        invariant
            i <= footprint.properties@.len(),
            forall|j: int|
                0 <= j < i ==> !is_reference(#[trigger] footprint.properties@[j], reference@),
        decreases footprint.properties@.len() - i,
    {
        let property = &footprint.properties[i];
        if is_text(&property.name, "Reference") && is_text(&property.value, reference) {
            return true;
        }
        i += 1;
    }
    false
}

fn find_footprint<'a>(footprints: &'a Vec<FootprintEntry>, reference: &str) -> (r: Option<
    &'a FootprintEntry,
>)
    ensures
        match r {
            Some(found) => footprint_from(footprints@, reference@, 0) == Some(*found),
            None => footprint_from(footprints@, reference@, 0) is None,
        },
{
    let mut i: usize = 0;
    while i < footprints.len()
        invariant
            i <= footprints@.len(),
            footprint_from(footprints@, reference@, 0) == footprint_from(
                footprints@,
                reference@,
                i as int,
            ),
        decreases footprints@.len() - i,
    {
        if footprint_bears(&footprints[i], reference) {
            return Some(&footprints[i]);
        }
        i += 1;
    }
    None
}

fn find_pad<'a>(pads: &'a Vec<PadEntry>, number: &str) -> (r: Option<&'a PadEntry>)
    ensures
        match r {
            Some(found) => pad_from(pads@, number@, 0) == Some(*found),
            None => pad_from(pads@, number@, 0) is None,
        },
{
    let mut i: usize = 0;
    while i < pads.len()
        invariant
            i <= pads@.len(),
            pad_from(pads@, number@, 0) == pad_from(pads@, number@, i as int),
        decreases pads@.len() - i,
    {
        if is_text(&pads[i].number, number) {
            return Some(&pads[i]);
        }
        i += 1;
    }
    None
}

/// Looks up a pad in the footprints of a board file. Its place on the board is the local one,
/// turned and shifted with its footprint.
pub fn find_pad_board_position(
    footprints: &Vec<FootprintEntry>,
    reference: &str,
    pad_number: &str,
) -> (r: Result<PadPlace, IpcError>)
    ensures
        seen(r) == pad_place(footprints@, reference@, pad_number@),
{
    let footprint = match find_footprint(footprints, reference) {
        None => {
            let mut message = "Footprint '".to_owned();
            message.append(reference);
            message.append("' not found on board");
            return Err(IpcError::new(message));
        },
        Some(footprint) => footprint,
    };
    let pad = match find_pad(&footprint.pads, pad_number) {
        None => {
            let mut message = "Pad '".to_owned();
            message.append(pad_number);
            message.append("' not found on '");
            message.append(reference);
            message.append("'");
            return Err(IpcError::new(message));
        },
        Some(pad) => pad,
    };
    match pad.at {
        None => Err(IpcError::say("Pad has no (at) node")),
        Some(at) => {
            let (anchor, rotation) = match footprint.at {
                Some(place) => (
                    Point { x: value_or_zero(place.x), y: value_or_zero(place.y) },
                    value_or_zero(place.rotation),
                ),
                None => (Point { x: zero(), y: zero() }, zero()),
            };
            Ok(
                PadPlace {
                    local: Point { x: value_or_zero(at.x), y: value_or_zero(at.y) },
                    anchor,
                    rotation,
                },
            )
        },
    }
}

} // verus!
