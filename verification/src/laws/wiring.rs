//! What the routing tools order, and where pads are.

use crate::edits::item_deleted;
use crate::error::CauseView;
use crate::flows::{
    ipc_error_text, is_order, legs_between, order_filled, orders_filled, pad_place, snapshot,
    track_replaced, FootprintEntry, Leg, PadEntry, PadPlace, PlaceEntry, TrackOrder,
};
use crate::laws::listing::{is_first_net, is_net_code, names_board};
use crate::messages::{DocumentSpecifier, ItemKind, Net, PathFacts, Response};
use crate::scalar::{Point, Scalar};
use crate::session::open_board;
use crate::step::{Command, NewItems, Progress, Reply, Task};
use vstd::prelude::*;

verus! {

/// A failed operation is told with the outermost cause of its failure.
pub proof fn a_failure_is_told_with_its_cause(first: Seq<char>, rest: Seq<CauseView>)
    ensures
        ipc_error_text(seq![CauseView::Text(first)] + rest)
            == "KiCAD must be running with the board loaded (IPC error: "@ + first + ")"@,
{
}

/// An order is for just the net, layer, width and ends that are asked for.
pub proof fn an_order_is_for_what_was_asked(
    order: TrackOrder,
    net_name: Seq<char>,
    layer: Seq<char>,
    width: Scalar,
    line: Leg,
)
    requires
        is_order(order, net_name, layer, width, line),
    ensures
        order.net_name@ == net_name,
        order.layer@ == layer,
        order.width == width,
        order.from.x == line.from.x && order.from.y == line.from.y,
        order.to.x == line.to.x && order.to.y == line.to.y,
{
}

/// Two points on a line are joined by one piece; any others by two, which bend where the first
/// point's height meets the second point's column.
pub proof fn a_route_bends_at_the_second_column(from: Point, to: Point)
    ensures
        legs_between(from, to, true).len() == 1,
        legs_between(from, to, true)[0].from == from && legs_between(from, to, true)[0].to == to,
        legs_between(from, to, false).len() == 2,
        legs_between(from, to, false)[0].from == from && legs_between(from, to, false)[1].to == to,
        legs_between(from, to, false)[0].to.x == to.x,
        legs_between(from, to, false)[0].to.y == from.y,
        legs_between(from, to, false)[1].from == legs_between(from, to, false)[0].to,
{
}

/// An order is filled by creating a track of its own net, layer and width between its own ends.
pub proof fn an_order_is_filled_as_it_stands<'a>(
    order: TrackOrder<'a>,
    replies: Seq<Reply>,
    at: int,
    first: DocumentSpecifier,
    nets: Vec<Net>,
    board: DocumentSpecifier,
)
    requires
        names_board(replies, at, first),
        replies[at + 1] == Reply::Payload(Response::Nets(nets)),
        names_board(replies, at + 2, board),
        replies.len() == at + 3,
        exists|k: int| is_first_net(nets@, order.net_name@, k),
    ensures
        match order_filled(order, replies, at) {
            Progress::Next(
                Task::Send(Command::CreateItems { document, items: NewItems::Track(track) }),
            ) => {
                &&& *document == board
                &&& track.net_name == order.net_name && track.layer == order.layer
                &&& track.width == order.width
                &&& track.x1 == order.from.x && track.y1 == order.from.y
                &&& track.x2 == order.to.x && track.y2 == order.to.y
                &&& exists|k: int|
                    #[trigger] is_first_net(nets@, order.net_name@, k) && is_net_code(
                        track.net_code,
                        Some(nets@[k]),
                    )
            },
            _ => false,
        },
{
    crate::laws::talking::a_track_is_created_as_it_was_asked_for(
        order.net_name,
        order.layer,
        order.width,
        (order.from.x, order.from.y),
        (order.to.x, order.to.y),
        replies,
        at,
        first,
        nets,
        board,
    );
}

proof fn lemma_shifted<'a>(orders: Seq<TrackOrder<'a>>, i: int, replies: Seq<Reply>, at: int)
    requires
        1 <= i,
        orders.len() > 0,
    ensures
        orders_filled(orders, i, replies, at) == orders_filled(
            orders.skip(1),
            i - 1,
            replies,
            at,
        ),
    decreases orders.len() - i,
{
    if i < orders.len() {
        if let Progress::Done(Ok(_), used) = order_filled(orders[i], replies, at) {
            lemma_shifted(orders, i + 1, replies, used);
        }
    }
}

/// Orders are filled one after another: none is nothing to do, and of several the rest is begun
/// just where the first one was filled, with the replies behind its own.
pub proof fn orders_are_filled_one_after_another<'a>(
    orders: Seq<TrackOrder<'a>>,
    replies: Seq<Reply>,
    at: int,
)
    ensures
        orders.len() == 0 ==> orders_filled(orders, 0, replies, at) == Progress::<'a, ()>::Done(
            Ok(()),
            at,
        ),
        orders.len() > 0 ==> match order_filled(orders[0], replies, at) {
            Progress::Done(Ok(_), used) => orders_filled(orders, 0, replies, at) == orders_filled(
                orders.skip(1),
                0,
                replies,
                used,
            ),
            other => orders_filled(orders, 0, replies, at) == other,
        },
{
    if orders.len() > 0 {
        if let Progress::Done(Ok(_), used) = order_filled(orders[0], replies, at) {
            lemma_shifted(orders, 1, replies, used);
        }
    }
}

/// A track is replaced by deleting the track with the identifier that is asked for and then
/// filling the order.
pub proof fn a_replacement_deletes_first<'a>(
    uuid: &'a String,
    order: TrackOrder<'a>,
    replies: Seq<Reply>,
    at: int,
)
    ensures
        match item_deleted(uuid, ItemKind::Trace, "trace"@, replies, at) {
            Progress::Done(Ok(_), used) => track_replaced(uuid, order, replies, at) == order_filled(
                order,
                replies,
                used,
            ),
            other => track_replaced(uuid, order, replies, at) == other,
        },
{
}

/// The geometry is looked at only where the board that is asked for is open.
pub proof fn only_the_requested_board_is_looked_at<'a>(
    board: PathFacts,
    replies: Seq<Reply>,
    at: int,
)
    ensures
        match open_board::<'a>(board, replies, at) {
            Progress::Next(task) => snapshot::<'a>(board, replies, at) matches Progress::Next(told)
                && told == task,
            Progress::Done(Err(error), used) => snapshot::<'a>(
                board,
                replies,
                at,
            ) matches Progress::Done(Err(told), end) && told == error && end == used,
            Progress::Done(Ok(_), used) => snapshot::<'a>(board, replies, at)
                == crate::geometry::routing_geometry::<'a>(replies, used),
        },
{
}

// Pads.

/// Whether a footprint's reference, one of its properties, is the one asked for.
pub open spec fn is_called(footprint: FootprintEntry, reference: Seq<char>) -> bool {
    exists|i: int|
        0 <= i < footprint.properties@.len() && (match (
            (#[trigger] footprint.properties@[i]).name,
            footprint.properties@[i].value,
        ) {
            (Some(name), Some(value)) => name@ == "Reference"@ && value@ == reference,
            _ => false,
        })
}

pub open spec fn is_numbered(pad: PadEntry, number: Seq<char>) -> bool {
    match pad.number {
        Some(own) => own@ == number,
        None => false,
    }
}

/// Whether a footprint is the first one with a reference.
pub open spec fn is_first_called(
    footprints: Seq<FootprintEntry>,
    reference: Seq<char>,
    f: int,
) -> bool {
    &&& 0 <= f < footprints.len() && is_called(footprints[f], reference)
    &&& forall|j: int| 0 <= j < f ==> !is_called(#[trigger] footprints[j], reference)
}

/// Whether a pad is the first one with a number.
pub open spec fn is_first_numbered(pads: Seq<PadEntry>, number: Seq<char>, p: int) -> bool {
    &&& 0 <= p < pads.len() && is_numbered(pads[p], number)
    &&& forall|j: int| 0 <= j < p ==> !is_numbered(#[trigger] pads[j], number)
}

/// Whether a number is the one that is written; what is not written is 0.
pub open spec fn is_written(told: Scalar, written: Option<Scalar>) -> bool {
    match written {
        Some(own) => told == own,
        None => told.bits == 0,
    }
}

pub open spec fn is_written_place(told: Point, written: Option<PlaceEntry>) -> bool {
    match written {
        Some(place) => is_written(told.x, place.x) && is_written(told.y, place.y),
        None => told.x.bits == 0 && told.y.bits == 0,
    }
}

proof fn lemma_footprint_from(footprints: Seq<FootprintEntry>, reference: Seq<char>, i: int)
    requires
        0 <= i <= footprints.len(),
        forall|j: int| 0 <= j < i ==> !is_called(#[trigger] footprints[j], reference),
    ensures
        match crate::flows::footprint_from(footprints, reference, i) {
            Some(footprint) => exists|f: int|
                #[trigger] is_first_called(footprints, reference, f) && footprint == footprints[f],
            None => forall|j: int|
                0 <= j < footprints.len() ==> !is_called(#[trigger] footprints[j], reference),
        },
    decreases footprints.len() - i,
{
    if i < footprints.len() {
        let footprint = footprints[i];
        assert(crate::flows::bears(footprint, reference) <==> is_called(footprint, reference)) by {
            if crate::flows::bears(footprint, reference) {
                let k = choose|k: int|
                    0 <= k < footprint.properties@.len() && crate::flows::is_reference(
                        #[trigger] footprint.properties@[k],
                        reference,
                    );
                assert(footprint.properties@[k].name is Some);
            }
            if is_called(footprint, reference) {
                let k = choose|k: int|
                    0 <= k < footprint.properties@.len() && (match (
                        (#[trigger] footprint.properties@[k]).name,
                        footprint.properties@[k].value,
                    ) {
                        (Some(name), Some(value)) => name@ == "Reference"@ && value@ == reference,
                        _ => false,
                    });
                assert(crate::flows::is_reference(footprint.properties@[k], reference));
            }
        }
        if is_called(footprint, reference) {
            assert(is_first_called(footprints, reference, i));
        } else {
            lemma_footprint_from(footprints, reference, i + 1);
        }
    }
}

proof fn lemma_pad_from(pads: Seq<PadEntry>, number: Seq<char>, i: int)
    requires
        0 <= i <= pads.len(),
        forall|j: int| 0 <= j < i ==> !is_numbered(#[trigger] pads[j], number),
    ensures
        match crate::flows::pad_from(pads, number, i) {
            Some(pad) => exists|p: int|
                #[trigger] is_first_numbered(pads, number, p) && pad == pads[p],
            None => forall|j: int| 0 <= j < pads.len() ==> !is_numbered(#[trigger] pads[j], number),
        },
    decreases pads.len() - i,
{
    if i < pads.len() {
        if is_numbered(pads[i], number) {
            assert(is_first_numbered(pads, number, i));
        } else {
            lemma_pad_from(pads, number, i + 1);
        }
    }
}

/// A pad is the first one with its number on the first footprint with the reference. Its place
/// is the one that is written for it, and its anchor and rotation are those that are written
/// for its footprint; what is not written is 0. It is not found where there is no such
/// footprint, or no such pad on it, or no place is written for the pad.
pub proof fn a_pad_is_where_the_file_has_it(
    footprints: Seq<FootprintEntry>,
    reference: Seq<char>,
    number: Seq<char>,
    f: int,
    p: int,
)
    ensures
        (forall|j: int| 0 <= j < footprints.len() ==> !is_called(#[trigger] footprints[j], reference))
            ==> pad_place(footprints, reference, number) == Err::<PadPlace, Seq<CauseView>>(
            seq![CauseView::Text("Footprint '"@ + reference + "' not found on board"@)],
        ),
        is_first_called(footprints, reference, f) && (forall|j: int|
            0 <= j < footprints[f].pads@.len() ==> !is_numbered(
                #[trigger] footprints[f].pads@[j],
                number,
            )) ==> pad_place(footprints, reference, number) == Err::<PadPlace, Seq<CauseView>>(
            seq![CauseView::Text("Pad '"@ + number + "' not found on '"@ + reference + "'"@)],
        ),
        is_first_called(footprints, reference, f) && is_first_numbered(
            footprints[f].pads@,
            number,
            p,
        ) ==> match (footprints[f].pads@[p].at, pad_place(footprints, reference, number)) {
            (None, Err(causes)) => causes == seq![CauseView::Text("Pad has no (at) node"@)],
            (Some(at), Ok(place)) => {
                &&& is_written_place(place.local, Some(at))
                &&& is_written_place(place.anchor, footprints[f].at)
                &&& match footprints[f].at {
                    Some(own) => is_written(place.rotation, own.rotation),
                    None => place.rotation.bits == 0,
                }
            },
            _ => false,
        },
{
    lemma_footprint_from(footprints, reference, 0);
    if is_first_called(footprints, reference, f) {
        let footprint = crate::flows::footprint_from(footprints, reference, 0)->Some_0;
        let g = choose|g: int|
            #[trigger] is_first_called(footprints, reference, g) && footprint == footprints[g];
        assert(is_first_called(footprints, reference, g));
        assert(g == f) by {
            if g < f {
                assert(!is_called(footprints[g], reference));
            }
            if f < g {
                assert(!is_called(footprints[f], reference));
            }
        }
        let pads = footprints[f].pads@;
        lemma_pad_from(pads, number, 0);
        if is_first_numbered(pads, number, p) {
            let pad = crate::flows::pad_from(pads, number, 0)->Some_0;
            let q = choose|q: int| #[trigger] is_first_numbered(pads, number, q) && pad == pads[q];
            assert(is_first_numbered(pads, number, q));
            assert(q == p) by {
                if q < p {
                    assert(!is_numbered(pads[q], number));
                }
                if p < q {
                    assert(!is_numbered(pads[p], number));
                }
            }
        }
    }
}

} // verus!
