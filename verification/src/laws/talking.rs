//! What KiCad is asked, and what its answers amount to.

use crate::commit::{begun, committed, dropped, pushed};
use crate::edits::{
    footprint_changed, footprint_deleted, item_deleted, track_added, via_added, Change,
};
use crate::envelope::{concluded, ApiResponse, Delivery, KiCadIpcClient};
use crate::error::{full_text, headline, in_context, is_marked, plain, undelivered, CauseView};
use crate::geometry::{arcs_of, edges_of, pads_of, vias_of, zones_of};
use crate::identity::board_identities;
use crate::items::{board_footprints, footprint_kiid, named_footprint};
use crate::laws::listing::{
    bears_reference, is_first_bearing, is_first_net, is_identified, is_net_code, is_place,
    names_board, sends_items,
};
use crate::messages::{
    CreateResult, DocumentSpecifier, Item, ItemContent, ItemKind, Net, PackedItem, RequestStatus,
    Response,
};
use crate::mutate::{created_count, created_in, creation_verdict, deleted, updated};
use crate::scalar::Scalar;
use crate::session::{acknowledged, board_extents, board_layers, board_nets, items_of, net_code};
use crate::step::{
    edited, exchanged, message_name_of, Command, FootprintEdit, ItemIds, ItemUpdates, Kiid,
    NewItems, Progress, Reply, Task,
};
use crate::tracks::{board_tracks, board_vias, item_present};
use crate::zones::rule_areas;
use vstd::prelude::*;

verus! {

// Exchanges.

/// A command is sent once, and what came back for it is what the operation goes on with: a
/// failure ends it with that failure.
pub proof fn an_exchange_is_one_command_and_its_reply<'a>(
    replies: Seq<Reply>,
    at: int,
    command: Command<'a>,
)
    requires
        0 <= at <= replies.len(),
    ensures
        at == replies.len() ==> exchanged(replies, at, command) == Progress::<
            'a,
            Option<Response>,
        >::Next(Task::Send(command)),
        at < replies.len() ==> (exchanged(replies, at, command) matches Progress::Done(
            result,
            used,
        ) && used == at + 1 && match (replies[at], result) {
            (Reply::Failed(error), Err(causes)) => causes == error.deep_view(),
            (Reply::Empty, Ok(None)) => true,
            (Reply::Payload(sent), Ok(Some(response))) => response == sent,
            _ => false,
        }),
{
}

/// Every question about the board starts with which documents are open.
pub proof fn every_question_starts_with_the_open_documents<'a>(
    replies: Seq<Reply>,
    at: int,
    kind: ItemKind,
    name: Seq<char>,
)
    requires
        0 <= at == replies.len(),
    ensures
        items_of::<'a>(kind, replies, at) == Progress::<'a, Seq<Item>>::Next(
            Task::Send(Command::GetOpenDocuments),
        ),
        board_nets::<'a>(replies, at) matches Progress::Next(Task::Send(Command::GetOpenDocuments)),
        board_layers::<'a>(replies, at) matches Progress::Next(
            Task::Send(Command::GetOpenDocuments),
        ),
        board_extents::<'a>(replies, at) matches Progress::Next(
            Task::Send(Command::GetOpenDocuments),
        ),
{
}

/// Whether an operation asks for the items of one kind in a document.
pub open spec fn asks_for<'a, V>(
    progress: Progress<'a, V>,
    board: DocumentSpecifier,
    kind: ItemKind,
) -> bool {
    match progress {
        Progress::Next(Task::Send(Command::GetItems { document, kind: asked })) => *document
            == board && asked == kind,
        _ => false,
    }
}

/// Once the board is named, each list is asked for by its own kind, on that board.
pub proof fn each_list_is_asked_for_by_its_kind<'a>(
    replies: Seq<Reply>,
    at: int,
    board: DocumentSpecifier,
    net: Option<Seq<char>>,
    layer: Option<Seq<char>>,
    name: Seq<char>,
    ids: Seq<Seq<char>>,
)
    requires
        names_board(replies, at, board),
        replies.len() == at + 1,
    ensures
        asks_for(board_tracks::<'a>(net, layer, replies, at), board, ItemKind::Trace),
        asks_for(board_vias::<'a>(net, replies, at), board, ItemKind::Via),
        asks_for(board_footprints::<'a>(replies, at), board, ItemKind::Footprint),
        asks_for(named_footprint::<'a>(name, replies, at), board, ItemKind::Footprint),
        asks_for(footprint_kiid::<'a>(name, replies, at), board, ItemKind::Footprint),
        asks_for(arcs_of::<'a>(replies, at), board, ItemKind::Arc),
        asks_for(pads_of::<'a>(replies, at), board, ItemKind::Footprint),
        asks_for(vias_of::<'a>(replies, at), board, ItemKind::Via),
        asks_for(zones_of::<'a>(replies, at), board, ItemKind::Zone),
        asks_for(edges_of::<'a>(replies, at), board, ItemKind::Shape),
        asks_for(rule_areas::<'a>(layer, replies, at), board, ItemKind::Zone),
        asks_for(board_identities::<'a>(ids, replies, at), board, ItemKind::Trace),
        board_nets::<'a>(replies, at) matches Progress::Next(
            Task::Send(Command::GetNets { board: asked }),
        ) && *asked == board,
        board_layers::<'a>(replies, at) matches Progress::Next(
            Task::Send(Command::GetBoardEnabledLayers { board: asked }),
        ) && *asked == board,
        board_extents::<'a>(replies, at) matches Progress::Next(
            Task::Send(Command::GetBoundingBox { document }),
        ) && *document == board,
{
    reveal(arcs_of);
    reveal(pads_of);
    reveal(vias_of);
    reveal(zones_of);
    reveal(edges_of);
}

/// Where KiCad has no document open, or does not say which, a question about the board fails
/// and nothing more is asked.
pub proof fn no_open_board_no_answer<'a>(replies: Seq<Reply>, at: int, kind: ItemKind)
    requires
        0 <= at < replies.len(),
        replies[at] matches Reply::Payload(Response::OpenDocuments(documents)) ==> documents@.len()
            == 0,
    ensures
        items_of::<'a>(kind, replies, at) matches Progress::Done(Err(causes), used) && used == at
            + 1 && (replies[at] matches Reply::Failed(error) ==> causes == error.deep_view()),
{
}

/// A failure to send the items ends a question with that failure; KiCad sending nothing means
/// that there are none.
pub proof fn a_failed_question_has_its_own_failure<'a>(
    replies: Seq<Reply>,
    at: int,
    board: DocumentSpecifier,
    kind: ItemKind,
)
    requires
        names_board(replies, at, board),
        at + 1 < replies.len(),
    ensures
        items_of::<'a>(kind, replies, at) matches Progress::Done(result, used) && used == at + 2
            && match (replies[at + 1], result) {
            (Reply::Failed(error), Err(causes)) => causes == error.deep_view(),
            (Reply::Empty, Ok(items)) => items.len() == 0,
            (Reply::Payload(Response::Items(sent)), Ok(items)) => items == sent@,
            (Reply::Payload(Response::Items(_)), _) => false,
            (Reply::Payload(_), Err(_)) => true,
            _ => false,
        },
{
}

// Creating.

/// Whether KiCad gives evidence that an item was created: it says so, or it says nothing and
/// sends the item.
pub open spec fn is_evidence(result: CreateResult) -> bool {
    match result.status {
        Some(status) => status.code is IscOk || status.code is IscUnknown && result.has_item,
        None => result.has_item,
    }
}

pub(crate) proof fn lemma_created_count(results: Seq<CreateResult>)
    ensures
        created_count(results) == results.filter(|r: CreateResult| is_evidence(r)).len(),
    decreases results.len(),
{
    reveal(Seq::filter);
    if results.len() > 0 {
        lemma_created_count(results.drop_last());
    }
}

/// A creation is taken as done just where KiCad took the request and gave evidence for as
/// many items as were asked for, and at least for something.
pub proof fn a_creation_is_done_where_there_is_evidence(
    status: RequestStatus,
    results: Seq<CreateResult>,
    expected: nat,
)
    ensures
        creation_verdict(status, results, expected) is Ok <==> status.ok && results.len() > 0
            && results.filter(|r: CreateResult| is_evidence(r)).len() == expected,
{
    lemma_created_count(results);
}

/// Whether an operation asks for one item to be created on a board.
pub open spec fn asks_to_create<'a, V>(
    progress: Progress<'a, V>,
    board: DocumentSpecifier,
    items: NewItems<'a>,
) -> bool {
    match progress {
        Progress::Next(Task::Send(Command::CreateItems { document, items: asked })) => *document
            == board && asked == items,
        _ => false,
    }
}

/// A track that is added is created on the board with the net, layer, width and ends that are
/// asked for, and with the number that the board has for its net.
pub proof fn a_track_is_created_as_it_was_asked_for<'a>(
    net_name: &'a str,
    layer: &'a str,
    width: Scalar,
    from: (Scalar, Scalar),
    to: (Scalar, Scalar),
    replies: Seq<Reply>,
    at: int,
    first: DocumentSpecifier,
    nets: Vec<Net>,
    board: DocumentSpecifier,
)
    requires
        names_board(replies, at, first),
        replies[at + 1] == Reply::Payload(Response::Nets(nets)),
        names_board(replies, at + 2, board),
        replies.len() == at + 3,
        exists|k: int| is_first_net(nets@, net_name@, k),
    ensures
        match track_added(net_name, layer, width, from, to, replies, at) {
            Progress::Next(
                Task::Send(Command::CreateItems { document, items: NewItems::Track(track) }),
            ) => {
                &&& *document == board
                &&& track.net_name == net_name && track.layer == layer && track.width == width
                &&& track.x1 == from.0 && track.y1 == from.1
                &&& track.x2 == to.0 && track.y2 == to.1
                &&& exists|k: int|
                    #[trigger] is_first_net(nets@, net_name@, k) && is_net_code(
                        track.net_code,
                        Some(nets@[k]),
                    )
            },
            _ => false,
        },
{
    crate::laws::listing::a_net_has_its_own_number(net_name@, replies, at, first, nets);
}

/// A via that is added is created on the board with the net, place and sizes that are asked
/// for, and with the number that the board has for its net.
pub proof fn a_via_is_created_as_it_was_asked_for<'a>(
    net_name: &'a str,
    x: Scalar,
    y: Scalar,
    drill: Scalar,
    pad_size: Scalar,
    replies: Seq<Reply>,
    at: int,
    first: DocumentSpecifier,
    nets: Vec<Net>,
    board: DocumentSpecifier,
)
    requires
        names_board(replies, at, first),
        replies[at + 1] == Reply::Payload(Response::Nets(nets)),
        names_board(replies, at + 2, board),
        replies.len() == at + 3,
        exists|k: int| is_first_net(nets@, net_name@, k),
    ensures
        match via_added(net_name, x, y, drill, pad_size, replies, at) {
            Progress::Next(
                Task::Send(Command::CreateItems { document, items: NewItems::Via(via) }),
            ) => {
                &&& *document == board
                &&& via.net_name == net_name && via.x == x && via.y == y
                &&& via.drill == drill && via.pad_size == pad_size
                &&& exists|k: int|
                    #[trigger] is_first_net(nets@, net_name@, k) && is_net_code(
                        via.net_code,
                        Some(nets@[k]),
                    )
            },
            _ => false,
        },
{
    crate::laws::listing::a_net_has_its_own_number(net_name@, replies, at, first, nets);
}

/// Items are created in the document that is asked for, and the answer to that decides.
pub proof fn items_are_created_where_it_was_asked<'a>(
    document: DocumentSpecifier,
    items: NewItems<'a>,
    replies: Seq<Reply>,
    at: int,
)
    requires
        0 <= at <= replies.len(),
        !(items matches NewItems::Packed(packed) && packed@.len() == 0),
    ensures
        at == replies.len() ==> asks_to_create(
            created_in(document, items, replies, at),
            document,
            items,
        ),
        at < replies.len() ==> (created_in(document, items, replies, at) matches Progress::Done(
            result,
            used,
        ) && used == at + 1 && (result is Ok <==> (replies[at] matches Reply::Payload(
            Response::Created { status, results },
        ) && status.ok && results@.len() > 0 && results@.filter(
            |r: CreateResult| is_evidence(r),
        ).len() == (match items {
            NewItems::Packed(packed) => packed@.len(),
            _ => 1,
        })))),
{
    if at < replies.len() {
        if let Reply::Payload(Response::Created { status, results }) = replies[at] {
            lemma_created_count(results@);
        }
    }
}

// Updating.

/// Items are updated on the first open board, as they were handed in; the answer decides: KiCad
/// has to have taken the request and to report success for each of them.
pub proof fn items_are_updated_as_they_were_handed_in<'a>(
    items: ItemUpdates<'a>,
    replies: Seq<Reply>,
    at: int,
    board: DocumentSpecifier,
)
    requires
        names_board(replies, at, board),
        !(items matches ItemUpdates::Many(packed) && packed@.len() == 0),
    ensures
        replies.len() == at + 1 ==> (updated(items, replies, at) matches Progress::Next(
            Task::Send(Command::UpdateItems { document, items: sent }),
        ) && *document == board && sent == items),
        replies.len() > at + 1 ==> (updated(items, replies, at) matches Progress::Done(
            result,
            used,
        ) && used == at + 2 && (result is Ok <==> (replies[at + 1] matches Reply::Payload(
            Response::Updated { status, results },
        ) && status.ok && results@.len() == (match items {
            ItemUpdates::One(_) => 1,
            ItemUpdates::Many(packed) => packed@.len(),
        }) && forall|j: int|
            0 <= j < results@.len() ==> ((#[trigger] results@[j]).status matches Some(own)
                && own.code is IscOk)))),
{
    if replies.len() > at + 1 {
        if let Reply::Payload(Response::Updated { status, results }) = replies[at + 1] {
            crate::mutate::update_needs_every_item(status, results@, items.count());
        }
    }
}

/// An edit is asked for once, and what came back for it is the item as it is to be.
pub proof fn an_edit_is_asked_for_once<'a>(
    replies: Seq<Reply>,
    at: int,
    item: Item,
    edit: FootprintEdit<'a>,
)
    requires
        0 <= at <= replies.len(),
    ensures
        at == replies.len() ==> (edited(replies, at, item, edit) matches Progress::Next(
            Task::Edit { item: own, edit: asked },
        ) && *own == item && asked == edit),
        at < replies.len() ==> (edited(replies, at, item, edit) matches Progress::Done(
            result,
            used,
        ) && used == at + 1 && match (replies[at], result) {
            (Reply::Failed(error), Err(causes)) => causes == error.deep_view(),
            (Reply::Payload(Response::Edited(packed)), Ok(got)) => got == packed,
            (Reply::Payload(Response::Edited(_)), _) => false,
            (Reply::Failed(_), _) => false,
            (_, result) => result is Err,
        }),
{
}

/// The identifiers of a deletion are those that are named, in order.
pub proof fn the_identifiers_are_those_that_are_named<'a>(one: &'a String, many: &'a Vec<String>)
    ensures
        ItemIds::One(one).all().len() == 1 && ItemIds::One(one).all()[0] == one@,
        ItemIds::Many(many).all().len() == many@.len(),
        forall|i: int|
            0 <= i < many@.len() ==> #[trigger] ItemIds::Many(many).all()[i] == many@[i]@,
{
}

// Deleting.

/// Whether an item is the track or via, as `kind` says, with an identifier.
pub open spec fn is_item_with_id(item: Item, kind: ItemKind, uuid: Seq<char>) -> bool {
    match (kind, item.content) {
        (ItemKind::Trace, ItemContent::Track(track)) => track.id matches Some(id) && id@ == uuid,
        (ItemKind::Via, ItemContent::Via(via)) => via.id matches Some(id) && id@ == uuid,
        _ => false,
    }
}

/// A track or via is deleted only where KiCad lists it among its own kind; what is then sent
/// is the deletion of just that identifier.
pub proof fn only_an_item_of_its_kind_is_deleted<'a>(
    uuid: &'a String,
    kind: ItemKind,
    kind_name: Seq<char>,
    replies: Seq<Reply>,
    at: int,
    items: Seq<Item>,
    board: DocumentSpecifier,
)
    requires
        sends_items(replies, at, items),
    ensures
        item_present::<'a>(uuid@, kind, kind_name, replies, at) matches Progress::Done(
            result,
            used,
        ) && used == at + 2 && (result is Ok <==> exists|i: int|
            0 <= i < items.len() && is_item_with_id(#[trigger] items[i], kind, uuid@)),
        !(exists|i: int|
            0 <= i < items.len() && is_item_with_id(#[trigger] items[i], kind, uuid@)) ==> (
        item_deleted(uuid, kind, kind_name, replies, at) matches Progress::Done(Err(_), _)),
        (exists|i: int| 0 <= i < items.len() && is_item_with_id(#[trigger] items[i], kind, uuid@))
            && names_board(replies, at + 2, board) && replies.len() == at + 3 ==> (match item_deleted(
            uuid,
            kind,
            kind_name,
            replies,
            at,
        ) {
            Progress::Next(
                Task::Send(Command::DeleteItems { document, ids: ItemIds::One(id) }),
            ) => *document == board && id == uuid,
            _ => false,
        }),
{
    assert forall|i: int| 0 <= i < items.len() implies (crate::tracks::has_id(
        #[trigger] items[i],
        kind,
        uuid@,
    ) <==> is_item_with_id(items[i], kind, uuid@)) by {}
    if exists|i: int| 0 <= i < items.len() && is_item_with_id(#[trigger] items[i], kind, uuid@) {
        let i = choose|i: int|
            0 <= i < items.len() && is_item_with_id(#[trigger] items[i], kind, uuid@);
        assert(crate::tracks::has_id(items[i], kind, uuid@));
        lemma_one_is_distinct(uuid);
    }
    if exists|i: int| 0 <= i < items.len() && crate::tracks::has_id(#[trigger] items[i], kind, uuid@) {
        let i = choose|i: int|
            0 <= i < items.len() && crate::tracks::has_id(#[trigger] items[i], kind, uuid@);
        assert(is_item_with_id(items[i], kind, uuid@));
    }
}

proof fn lemma_one_is_distinct(uuid: &String)
    ensures
        ItemIds::One(uuid).all().no_duplicates(),
        ItemIds::One(uuid).all().len() == 1,
{
}

// Changing footprints.

pub(crate) proof fn lemma_named_from(items: Seq<Item>, reference: Seq<char>, i: int)
    requires
        0 <= i <= items.len(),
        forall|j: int| 0 <= j < i ==> !bears_reference(#[trigger] items[j], reference),
    ensures
        match crate::edits::named_from(items, reference, i) {
            Some(k) => is_first_bearing(items, reference, k),
            None => forall|j: int|
                0 <= j < items.len() ==> !bears_reference(#[trigger] items[j], reference),
        },
    decreases items.len() - i,
{
    if i < items.len() {
        assert(reference.len() == 0 <==> reference =~= Seq::<char>::empty());
        assert(crate::edits::is_named(items[i], reference) <==> bears_reference(
            items[i],
            reference,
        ));
        if !bears_reference(items[i], reference) {
            lemma_named_from(items, reference, i + 1);
        }
    }
}

/// Whether an edit is what a change of a footprint comes to: it is moved from where it is to
/// where it is to be, turned around its own place from its own angle to the one asked for, or
/// given a value, in its definition too where that has one.
pub open spec fn is_edit_of<'a>(edit: FootprintEdit<'a>, item: Item, change: Change<'a>) -> bool {
    match (item.content, change, edit) {
        (ItemContent::Footprint(fp), Change::Move(place), FootprintEdit::MoveTo { from, to }) => {
            is_place(from, fp.position) && to == place
        },
        (
            ItemContent::Footprint(fp),
            Change::Rotate(angle),
            FootprintEdit::RotateTo { anchor, from, to },
        ) => {
            &&& is_place(anchor, fp.position) && to == angle
            &&& fp.orientation matches Some(own) ==> from == own
            &&& fp.orientation is None ==> from.bits == 0
        },
        (
            ItemContent::Footprint(fp),
            Change::Value(text),
            FootprintEdit::SetValue { value, in_definition },
        ) => {
            &&& value == text
            &&& in_definition <==> match fp.definition {
                Some(definition) => has_text(definition.value_field),
                None => false,
            }
        },
        _ => false,
    }
}

/// Whether a field has a text.
pub open spec fn has_text(field: Option<crate::messages::Field>) -> bool {
    match field {
        Some(f) => match f.text {
            Some(t) => t.text is Some,
            None => false,
        },
        None => false,
    }
}

/// A change is made to the first footprint with the reference, and to no other item: what is
/// asked for is just the edit of that item. It fails where no footprint has the reference, or
/// a value is to be set where there is no field for it.
pub proof fn the_first_footprint_with_the_reference_is_changed<'a>(
    reference: Seq<char>,
    change: Change<'a>,
    replies: Seq<Reply>,
    at: int,
    items: Seq<Item>,
)
    requires
        sends_items(replies, at, items),
        replies.len() == at + 2,
    ensures
        match footprint_changed(reference, change, replies, at) {
            Progress::Next(Task::Edit { item, edit }) => exists|k: int|
                #[trigger] is_first_bearing(items, reference, k) && *item == items[k]
                    && is_edit_of(edit, items[k], change),
            Progress::Done(Err(_), used) => used == at + 2 && ((forall|j: int|
                0 <= j < items.len() ==> !bears_reference(#[trigger] items[j], reference))
                || change is Value && exists|k: int|
                #[trigger] is_first_bearing(items, reference, k) && (
                items[k].content matches ItemContent::Footprint(fp) && !has_text(
                    fp.value_field,
                ))),
            _ => false,
        },
{
    lemma_named_from(items, reference, 0);
    if let Some(k) = crate::edits::named_from(items, reference, 0) {
        assert(is_first_bearing(items, reference, k));
    }
}

/// Once the edit is applied, the item that came back is what KiCad is asked to update.
pub proof fn the_edited_item_is_sent_back<'a>(
    reference: Seq<char>,
    change: Change<'a>,
    replies: Seq<Reply>,
    at: int,
    items: Seq<Item>,
    packed: PackedItem,
    board: DocumentSpecifier,
)
    requires
        sends_items(replies, at, items),
        exists|k: int| is_first_bearing(items, reference, k),
        !(change is Value),
        replies[at + 2] == Reply::Payload(Response::Edited(packed)),
        names_board(replies, at + 3, board),
        replies.len() == at + 4,
    ensures
        match footprint_changed(reference, change, replies, at) {
            Progress::Next(
                Task::Send(Command::UpdateItems { document, items: ItemUpdates::One(item) }),
            ) => *document == board && *item == packed,
            _ => false,
        },
{
    lemma_named_from(items, reference, 0);
    let k = choose|k: int| is_first_bearing(items, reference, k);
    assert(bears_reference(items[k], reference));
}

/// Whether a list came, after so many replies, that has no footprint with the reference and an
/// identifier.
pub open spec fn lists_none<'a>(
    listed: Progress<'a, Seq<Item>>,
    reference: Seq<char>,
    used: int,
) -> bool {
    match listed {
        Progress::Done(Ok(items), end) => end == used && forall|j: int|
            0 <= j < items.len() ==> !is_identified(#[trigger] items[j], reference),
        _ => false,
    }
}

/// A footprint is reported as deleted only where what KiCad listed last has none with the
/// reference and an identifier.
pub proof fn a_deleted_footprint_is_listed_no_more<'a>(
    reference: Seq<char>,
    replies: Seq<Reply>,
    at: int,
    used: int,
)
    requires
        footprint_deleted::<'a>(reference, replies, at) == Progress::<'a, ()>::Done(Ok(()), used),
    ensures
        exists|end: int|
            lists_none(#[trigger] items_of::<'a>(ItemKind::Footprint, replies, end), reference, used),
{
    crate::edits::a_deleted_footprint_is_gone(reference, replies, at);
    let id = footprint_kiid::<'a>(reference, replies, at)->Done_0->Ok_0;
    let at2 = footprint_kiid::<'a>(reference, replies, at)->Done_1;
    let at3 = deleted(ItemIds::One(id.value), replies, at2)->Done_1;
    let items = items_of::<'a>(ItemKind::Footprint, replies, at3)->Done_0->Ok_0;
    assert(items_of::<'a>(ItemKind::Footprint, replies, at3) == Progress::<'a, Seq<Item>>::Done(
        Ok(items),
        used,
    ));
    assert forall|j: int| 0 <= j < items.len() implies !is_identified(
        #[trigger] items[j],
        reference,
    ) by {
        assert(crate::items::kiid_if_named::<'a>(items[j], reference) is None);
        assert(reference.len() == 0 <==> reference =~= Seq::<char>::empty());
    }
}

// Commits.

/// A commit is begun by asking for one, and goes by the identifier that KiCad gave; without
/// one it fails. Publishing and dropping it name that identifier, publishing with the
/// description and dropping without one.
pub proof fn a_commit_goes_by_its_own_identifier<'a>(
    id: Kiid<'a>,
    description: &'a str,
    replies: Seq<Reply>,
    at: int,
)
    requires
        0 <= at <= replies.len(),
    ensures
        at == replies.len() ==> begun::<'a>(replies, at) == Progress::<'a, Kiid<'a>>::Next(
            Task::Send(Command::BeginCommit),
        ),
        at < replies.len() ==> (begun::<'a>(replies, at) matches Progress::Done(result, used)
            && used == at + 1 && match result {
            Ok(got) => replies[at] matches Reply::Payload(Response::CommitBegun { id: sent })
                && sent == Some(*got.value) && got.value@.len() > 0,
            Err(_) => !(replies[at] matches Reply::Payload(Response::CommitBegun { id: Some(own) })
                && own@.len() > 0),
        }),
        at == replies.len() ==> (pushed(id, description, replies, at) matches Progress::Next(
            Task::Send(Command::EndCommit { id: named, action, message }),
        ) && named == id.value && action is Commit && message == description),
        at == replies.len() ==> (dropped(id, replies, at) matches Progress::Next(
            Task::Send(Command::EndCommit { id: named, action, message }),
        ) && named == id.value && action is Drop && message@.len() == 0),
        at < replies.len() ==> (pushed(id, description, replies, at) matches Progress::Done(
            result,
            used,
        ) && used == at + 1 && (result is Ok <==> replies[at] == Reply::Payload(
            Response::CommitEnded,
        ))),
        at < replies.len() ==> (dropped(id, replies, at) matches Progress::Done(result, used)
            && used == at + 1 && (result is Ok <==> replies[at] == Reply::Payload(
            Response::CommitEnded,
        ))),
{
    reveal_strlit("");
}

/// Once a commit is begun its operation is run under the commit's identifier.
pub proof fn the_operation_runs_under_the_commit<'a>(
    description: &'a str,
    replies: Seq<Reply>,
    at: int,
)
    requires
        begun::<'a>(replies, at) is Done,
        begun::<'a>(replies, at)->Done_0 is Ok,
    ensures
        committed(description, None, replies, at) matches Progress::Next(
            Task::Run { commit },
        ) && commit == begun::<'a>(replies, at)->Done_0->Ok_0.value,
{
}

// The wire.

/// Whether a text starts with another one.
pub open spec fn starts_so(text: Seq<char>, front: Seq<char>) -> bool {
    exists|rest: Seq<char>| text == #[trigger] (front + rest)
}

proof fn lemma_starts(text: Seq<char>, front: Seq<char>)
    ensures
        starts_so(text, front) <==> crate::text::begins_with(text, front),
{
    if crate::text::begins_with(text, front) {
        assert(text =~= front + text.skip(front.len() as int));
    }
    if starts_so(text, front) {
        let rest = choose|rest: Seq<char>| text == #[trigger] (front + rest);
        assert(text.take(front.len() as int) =~= front);
    }
}

/// A socket path that says how to reach it is dialled as it is, any other as a path of an
/// `ipc` socket.
pub proof fn the_socket_is_dialled_by_its_path(client: KiCadIpcClient)
    ensures
        ({
            let path = client.socket_path@;
            if starts_so(path, "ipc://"@) || starts_so(path, "tcp://"@) || starts_so(
                path,
                "inproc://"@,
            ) {
                client.url() == path
            } else {
                client.url() == "ipc://"@ + path
            }
        }),
{
    lemma_starts(client.socket_path@, "ipc://"@);
    lemma_starts(client.socket_path@, "tcp://"@);
    lemma_starts(client.socket_path@, "inproc://"@);
}

/// What comes of a delivery: the message of an answer whose status is in order, and else a
/// failure that says what went wrong. KiCad's own message stands in it, or the code where it
/// gave none.
pub proof fn an_answer_is_what_kicad_sent(client: KiCadIpcClient, delivery: Delivery)
    ensures
        match delivery {
            Delivery::Answered(ApiResponse { status: Some(status), message }) => if status.ok {
                concluded(client, delivery) == Ok::<Option<Response>, Seq<CauseView>>(message)
            } else {
                concluded(client, delivery) matches Err(causes) && causes.len() == 1
                    && causes[0].text() == "KiCad IPC error: "@ + (if status.error_message@.len()
                    == 0 {
                    status.code_label@
                } else {
                    status.error_message@
                }) + " ("@ + status.code_name@ + ")"@
            },
            Delivery::Answered(ApiResponse { status: None, .. }) => concluded(client, delivery)
                is Err,
            Delivery::DialFailed(why) => concluded(client, delivery) matches Err(causes)
                && causes.len() == 2 && causes[0].text() == "Cannot connect to KiCAD IPC at "@
                + client.url() + ": "@ + why@ && causes[1] is Unreachable,
            Delivery::SendFailed(why) => concluded(client, delivery) matches Err(causes)
                && causes.len() == 2 && causes[0].text() == "NNG send failed: "@ + why@
                && causes[1] is Unreachable,
            Delivery::ReceiveFailed(why) => concluded(client, delivery) matches Err(causes)
                && causes.len() == 1 && causes[0].text() == "NNG recv failed: "@ + why@,
            Delivery::SocketFailed(why) => concluded(client, delivery) matches Err(causes)
                && causes.len() == 2 && causes[1].text() == why@,
            Delivery::SendTimeoutRefused(why) => concluded(client, delivery) matches Err(causes)
                && causes.len() == 2 && causes[1].text() == why@,
            Delivery::ReceiveTimeoutRefused(why) => concluded(client, delivery) matches Err(causes)
                && causes.len() == 2 && causes[1].text() == why@,
            Delivery::Undecodable(why) => concluded(client, delivery) matches Err(causes)
                && causes.len() == 2 && causes[1].text() == why@,
        },
{
}

/// The name of a command in its package.
pub open spec fn own_name(command: Command) -> Seq<char> {
    match command {
        Command::Ping => "Ping"@,
        Command::GetOpenDocuments => "GetOpenDocuments"@,
        Command::GetNets { .. } => "GetNets"@,
        Command::GetItems { .. } => "GetItems"@,
        Command::CreateItems { .. } => "CreateItems"@,
        Command::UpdateItems { .. } => "UpdateItems"@,
        Command::DeleteItems { .. } => "DeleteItems"@,
        Command::RefillZones { .. } => "RefillZones"@,
        Command::SaveDocument { .. } => "SaveDocument"@,
        Command::BeginCommit => "BeginCommit"@,
        Command::EndCommit { .. } => "EndCommit"@,
        Command::GetBoundingBox { .. } => "GetBoundingBox"@,
        Command::GetBoardEnabledLayers { .. } => "GetBoardEnabledLayers"@,
        Command::RunAction { .. } => "RunAction"@,
    }
}

/// A command goes by its own name, in the package of the board's commands where it is about
/// nets, layers or zones, and else in that of the common ones.
pub proof fn a_command_goes_by_its_own_name(command: Command)
    ensures
        message_name_of(command) == (match command {
            Command::GetNets { .. } => "kiapi.board.commands."@,
            Command::GetBoardEnabledLayers { .. } => "kiapi.board.commands."@,
            Command::RefillZones { .. } => "kiapi.board.commands."@,
            _ => "kiapi.common.commands."@,
        }) + own_name(command),
{
    reveal_strlit("kiapi.board.commands.");
    reveal_strlit("kiapi.common.commands.");
    match command {
        Command::Ping => {
            reveal_strlit("Ping");
            reveal_strlit("kiapi.common.commands.Ping");
        },
        Command::GetOpenDocuments => {
            reveal_strlit("GetOpenDocuments");
            reveal_strlit("kiapi.common.commands.GetOpenDocuments");
        },
        Command::GetNets { .. } => {
            reveal_strlit("GetNets");
            reveal_strlit("kiapi.board.commands.GetNets");
        },
        Command::GetItems { .. } => {
            reveal_strlit("GetItems");
            reveal_strlit("kiapi.common.commands.GetItems");
        },
        Command::CreateItems { .. } => {
            reveal_strlit("CreateItems");
            reveal_strlit("kiapi.common.commands.CreateItems");
        },
        Command::UpdateItems { .. } => {
            reveal_strlit("UpdateItems");
            reveal_strlit("kiapi.common.commands.UpdateItems");
        },
        Command::DeleteItems { .. } => {
            reveal_strlit("DeleteItems");
            reveal_strlit("kiapi.common.commands.DeleteItems");
        },
        Command::RefillZones { .. } => {
            reveal_strlit("RefillZones");
            reveal_strlit("kiapi.board.commands.RefillZones");
        },
        Command::SaveDocument { .. } => {
            reveal_strlit("SaveDocument");
            reveal_strlit("kiapi.common.commands.SaveDocument");
        },
        Command::BeginCommit => {
            reveal_strlit("BeginCommit");
            reveal_strlit("kiapi.common.commands.BeginCommit");
        },
        Command::EndCommit { .. } => {
            reveal_strlit("EndCommit");
            reveal_strlit("kiapi.common.commands.EndCommit");
        },
        Command::GetBoundingBox { .. } => {
            reveal_strlit("GetBoundingBox");
            reveal_strlit("kiapi.common.commands.GetBoundingBox");
        },
        Command::GetBoardEnabledLayers { .. } => {
            reveal_strlit("GetBoardEnabledLayers");
            reveal_strlit("kiapi.board.commands.GetBoardEnabledLayers");
        },
        Command::RunAction { .. } => {
            reveal_strlit("RunAction");
            reveal_strlit("kiapi.common.commands.RunAction");
        },
    }
    assert(message_name_of(command) =~= (match command {
        Command::GetNets { .. } => "kiapi.board.commands."@,
        Command::GetBoardEnabledLayers { .. } => "kiapi.board.commands."@,
        Command::RefillZones { .. } => "kiapi.board.commands."@,
        _ => "kiapi.common.commands."@,
    }) + own_name(command));
}

/// An error is told by its outermost cause, or by all of its causes, outermost first; a text
/// put in front becomes the outermost.
pub proof fn an_error_is_told_outermost_first(chain: Seq<CauseView>, message: Seq<char>)
    ensures
        headline(plain(message)) == message && full_text(plain(message)) == message,
        headline(in_context(chain, message)) == message,
        in_context(chain, message).len() == chain.len() + 1,
        in_context(chain, message).skip(1) == chain,
        chain.len() > 0 ==> headline(chain) == chain[0].text(),
        chain.len() == 1 ==> full_text(chain) == chain[0].text(),
        chain.len() == 2 ==> full_text(chain) == chain[0].text() + ": "@ + chain[1].text(),
        is_marked(chain) <==> exists|i: int|
            0 <= i < chain.len() && #[trigger] chain[i] is Unreachable,
        is_marked(undelivered(message)) && headline(undelivered(message)) == message,
        !is_marked(plain(message)),
        CauseView::Unreachable.text() == "KiCad IPC transport unreachable"@,
        chain.len() > 0 ==> full_text(chain.push(CauseView::Text(message))) == full_text(chain)
            + ": "@ + message,
{
    let longer = chain.push(CauseView::Text(message));
    assert(longer.map_values(|c: CauseView| c.text()).drop_last() =~= chain.map_values(
        |c: CauseView| c.text(),
    ));
    assert(longer.map_values(|c: CauseView| c.text()).last() == message);
    let texts = chain.map_values(|c: CauseView| c.text());
    reveal_with_fuel(crate::text::joined, 3);
    assert(in_context(chain, message).skip(1) =~= chain);
    if chain.len() == 2 {
        assert(texts.drop_last() =~= seq![chain[0].text()]);
    }
    assert(plain(message).map_values(|c: CauseView| c.text())[0] == message);
    if exists|i: int| 0 <= i < chain.len() && #[trigger] chain[i] is Unreachable {
        let i = choose|i: int| 0 <= i < chain.len() && #[trigger] chain[i] is Unreachable;
        assert(chain[i] == CauseView::Unreachable);
    }
    assert(undelivered(message)[1] == CauseView::Unreachable);
}

/// A command whose outcome alone matters is sent as it is, and is done where it did not fail.
pub proof fn a_plain_command_is_done_where_it_did_not_fail<'a>(
    replies: Seq<Reply>,
    at: int,
    command: Command<'a>,
)
    requires
        0 <= at <= replies.len(),
    ensures
        at == replies.len() ==> acknowledged(replies, at, command) == Progress::<'a, ()>::Next(
            Task::Send(command),
        ),
        at < replies.len() ==> (acknowledged(replies, at, command) matches Progress::Done(
            result,
            used,
        ) && used == at + 1 && (result is Err <==> replies[at] is Failed)),
{
}

} // verus!
