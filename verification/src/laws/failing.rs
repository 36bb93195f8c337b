//! What is said where something fails.

use crate::board::FootprintView;
use crate::commit::{begun, committed, dropped, pushed, CommitEnd, Operation};
use crate::edits::{footprint_changed, footprint_deleted, footprint_placed, item_deleted, Change};
use crate::envelope::{concluded, ApiResponse, Delivery, KiCadIpcClient};
use crate::error::{CauseView, IpcError};
use crate::footprint_item::FootprintItem;
use crate::gather::{gather, gather_indexed, try_gather};
use crate::geometry::{arcs_of, edges_of, vias_of};
use crate::items::footprint_kiid;
use crate::laws::listing::{
    bears_reference, is_first_bearing, is_identified, names_board, sends_items,
};
use crate::laws::looking::{is_first_wanted, is_wanted};
use crate::laws::talking::{has_text, is_evidence, is_item_with_id};
use crate::messages::{
    CreateResult, DeleteResult, DocumentIdentifier, DocumentSpecifier, Item, ItemContent, ItemKind,
    Net, OpenDocument, PathFacts, RequestStatus, Response, UpdateResult,
};
use crate::mutate::{
    created_in, creation_verdict, deleted, deletion_verdict, rejections, request_verdict,
    update_verdict, updated,
};
use crate::session::{board_extents, net_code, open_board};
use crate::step::{Command, ItemIds, ItemUpdates, Kiid, NewItems, Progress, Reply, Task};
use crate::text::{decimal, joined};
use vstd::prelude::*;

verus! {

/// Whether an operation ended with one text and nothing else.
pub open spec fn fails_with<'a, V>(progress: Progress<'a, V>, said: Seq<char>) -> bool {
    progress matches Progress::Done(Err(causes), _) && causes == seq![CauseView::Text(said)]
}

// Things that are not there.

/// A net, a track or via, and a footprint that the board does not have are named in the
/// failure.
pub proof fn what_is_missing_is_named<'a>(
    name: Seq<char>,
    uuid: &'a String,
    kind: ItemKind,
    kind_name: Seq<char>,
    change: Change<'a>,
    replies: Seq<Reply>,
    at: int,
    board: DocumentSpecifier,
    nets: Vec<Net>,
    items: Seq<Item>,
)
    ensures
        names_board(replies, at, board) && at + 1 < replies.len() && replies[at + 1]
            == Reply::Payload(Response::Nets(nets)) && (forall|k: int|
            0 <= k < nets@.len() ==> (#[trigger] nets@[k]).name@ != name) ==> fails_with(
            net_code::<'a>(name, replies, at),
            "Net '"@ + name + "' not found on board"@,
        ),
        sends_items(replies, at, items) && (forall|i: int|
            0 <= i < items.len() ==> !is_item_with_id(#[trigger] items[i], kind, uuid@))
            ==> fails_with(
            item_deleted(uuid, kind, kind_name, replies, at),
            kind_name + " UUID '"@ + uuid@ + "' was not found on the active board"@,
        ),
        sends_items(replies, at, items) && (forall|i: int|
            0 <= i < items.len() ==> !is_identified(#[trigger] items[i], name)) ==> fails_with(
            footprint_kiid::<'a>(name, replies, at),
            "Footprint '"@ + name + "' not found on board"@,
        ),
        sends_items(replies, at, items) && (forall|i: int|
            0 <= i < items.len() ==> !bears_reference(#[trigger] items[i], name)) ==> fails_with(
            footprint_changed(name, change, replies, at),
            "Footprint '"@ + name + "' not found"@,
        ),
{
    if names_board(replies, at, board) && at + 1 < replies.len() && replies[at + 1]
        == Reply::Payload(Response::Nets(nets)) && (forall|k: int|
        0 <= k < nets@.len() ==> (#[trigger] nets@[k]).name@ != name) {
        lemma_no_net(nets@, name, 0);
    }
    if sends_items(replies, at, items) {
        crate::laws::talking::only_an_item_of_its_kind_is_deleted(
            uuid,
            kind,
            kind_name,
            replies,
            at,
            items,
            board,
        );
        if forall|i: int| 0 <= i < items.len() ==> !is_identified(#[trigger] items[i], name) {
            lemma_no_kiid(items, name, 0);
        }
        if forall|i: int| 0 <= i < items.len() ==> !bears_reference(#[trigger] items[i], name) {
            crate::laws::talking::lemma_named_from(items, name, 0);
        }
    }
}

proof fn lemma_no_net(nets: Seq<Net>, name: Seq<char>, i: int)
    requires
        0 <= i,
        forall|k: int| 0 <= k < nets.len() ==> (#[trigger] nets[k]).name@ != name,
    ensures
        crate::session::net_named_from(
            nets.map_values(|n: Net| crate::session::net_entry(n)),
            name,
            i,
        ) is None,
    decreases nets.len() - i,
{
    if i < nets.len() {
        assert(nets.map_values(|n: Net| crate::session::net_entry(n))[i].name == nets[i].name@);
        lemma_no_net(nets, name, i + 1);
    }
}

proof fn lemma_no_kiid(items: Seq<Item>, name: Seq<char>, i: int)
    requires
        0 <= i,
        forall|j: int| 0 <= j < items.len() ==> !is_identified(#[trigger] items[j], name),
    ensures
        crate::items::kiid_from(items, name, i) is None,
    decreases items.len() - i,
{
    if i < items.len() {
        assert(!is_identified(items[i], name));
        assert(name.len() == 0 <==> name =~= Seq::<char>::empty());
        lemma_no_kiid(items, name, i + 1);
    }
}

/// A footprint without a value field keeps its value, and is named.
pub proof fn a_footprint_without_a_value_is_named<'a>(
    reference: Seq<char>,
    value: &'a str,
    replies: Seq<Reply>,
    at: int,
    items: Seq<Item>,
    k: int,
)
    requires
        sends_items(replies, at, items),
        is_first_bearing(items, reference, k),
        items[k].content matches ItemContent::Footprint(fp) && !has_text(fp.value_field),
    ensures
        fails_with(
            footprint_changed(reference, Change::Value(value), replies, at),
            "Footprint '"@ + reference + "' has no editable value field"@,
        ),
{
    crate::laws::talking::lemma_named_from(items, reference, 0);
    assert(bears_reference(items[k], reference));
    let found = crate::edits::named_from(items, reference, 0)->Some_0;
    assert(is_first_bearing(items, reference, found));
    assert(found == k) by {
        if found < k {
            assert(!bears_reference(items[found], reference));
        }
        if k < found {
            assert(!bears_reference(items[k], reference));
        }
    }
}

/// A board that is not open is named, with those that are.
pub proof fn a_board_that_is_not_open_is_named<'a>(
    requested: PathFacts,
    replies: Seq<Reply>,
    at: int,
    documents: Vec<OpenDocument>,
    labels: Seq<Seq<char>>,
)
    requires
        0 <= at < replies.len(),
        replies[at] == Reply::Payload(Response::OpenDocuments(documents)),
        documents@.len() > 0,
        forall|j: int| 0 <= j < documents@.len() ==> !is_wanted(#[trigger] documents@[j], requested),
        labels == documents@.filter(|d: OpenDocument| is_board(d)).map_values(
            |d: OpenDocument| d.place.display@,
        ),
    ensures
        fails_with(
            open_board::<'a>(requested, replies, at),
            "requested board '"@ + requested.display@ + "' is not open in KiCAD (open boards: "@
                + joined(labels, ", "@) + ")"@,
        ),
{
    crate::laws::looking::the_first_wanted_board_is_taken(requested, replies, at, documents);
    lemma_labels(documents@);
}

pub open spec fn is_board(document: OpenDocument) -> bool {
    document.document.identifier matches Some(DocumentIdentifier::BoardFilename(_))
}

proof fn lemma_labels(documents: Seq<OpenDocument>)
    ensures
        gather(documents, |d: OpenDocument| crate::session::board_label(d)) == documents.filter(
            |d: OpenDocument| is_board(d),
        ).map_values(|d: OpenDocument| d.place.display@),
    decreases documents.len(),
{
    reveal(Seq::filter);
    if documents.len() > 0 {
        lemma_labels(documents.drop_last());
        let front = documents.drop_last().filter(|d: OpenDocument| is_board(d));
        assert(front.push(documents.last()).map_values(|d: OpenDocument| d.place.display@)
            =~= front.map_values(|d: OpenDocument| d.place.display@).push(
            documents.last().place.display@,
        ));
    }
}

/// Where KiCad sends no box there are no extents.
pub proof fn no_box_no_extents<'a>(replies: Seq<Reply>, at: int, board: DocumentSpecifier)
    requires
        names_board(replies, at, board),
        at + 1 < replies.len(),
        replies[at + 1] matches Reply::Payload(Response::BoundingBoxes(boxes)) ==> boxes@.len()
            == 0,
        !(replies[at + 1] is Failed),
        replies[at + 1] is Payload ==> (replies[at + 1] matches Reply::Payload(
            Response::BoundingBoxes(_),
        )),
    ensures
        fails_with(board_extents::<'a>(replies, at), "No bounding box returned from KiCAD"@),
{
}

// Items that cannot be read.

proof fn lemma_first_failure<A, B, E>(
    s: Seq<A>,
    f: spec_fn(A) -> Result<Seq<B>, E>,
    k: int,
)
    requires
        0 <= k < s.len(),
        f(s[k]) is Err,
        forall|j: int| 0 <= j < k ==> f(#[trigger] s[j]) is Ok,
    ensures
        try_gather(s, f) == Err::<Seq<B>, E>(f(s[k])->Err_0),
    decreases s.len(),
{
    let front = s.drop_last();
    if k < front.len() {
        assert(front[k] == s[k]);
        assert forall|j: int| 0 <= j < k implies f(#[trigger] front[j]) is Ok by {
            assert(front[j] == s[j]);
        }
        lemma_first_failure(front, f, k);
    } else {
        assert forall|j: int| 0 <= j < front.len() implies f(#[trigger] front[j]) is Ok by {
            assert(front[j] == s[j]);
        }
        lemma_no_failure(front, f);
    }
}

proof fn lemma_no_failure<A, B, E>(s: Seq<A>, f: spec_fn(A) -> Result<Seq<B>, E>)
    requires
        forall|j: int| 0 <= j < s.len() ==> f(#[trigger] s[j]) is Ok,
    ensures
        try_gather(s, f) is Ok,
    decreases s.len(),
{
    if s.len() > 0 {
        assert forall|j: int| 0 <= j < s.len() - 1 implies f(#[trigger] s.drop_last()[j]) is Ok by {
            assert(s.drop_last()[j] == s[j]);
        }
        lemma_no_failure(s.drop_last(), f);
        assert(f(s[s.len() - 1]) is Ok);
    }
}

/// Whether an item is an arc with all of its points.
pub open spec fn is_whole_arc(item: Item) -> bool {
    item.content matches ItemContent::Arc(arc) && arc.start is Some && arc.mid is Some && arc.end
        is Some
}

/// Whether an item is a piece of the edge that can be told, or none of the edge at all.
pub open spec fn is_plain_piece(item: Item) -> bool {
    item.content matches ItemContent::Shape(shape) && (!(shape.layer is EdgeCuts) || (match shape.shape {
        Some(own) => own.geometry matches Some(geometry) && (geometry is Segment
            || geometry is Arc),
        None => false,
    }))
}

/// The arcs, the vias and the edge of a board are told only where every item can be read. The
/// first one that cannot is what the failure is about: why it could not be decoded, that it is
/// another message, or what it lacks.
pub proof fn the_first_item_that_cannot_be_read_is_told<'a>(
    replies: Seq<Reply>,
    at: int,
    items: Seq<Item>,
    k: int,
)
    requires
        sends_items(replies, at, items),
        0 <= k < items.len(),
    ensures
        !is_whole_arc(items[k]) && (forall|j: int| 0 <= j < k ==> is_whole_arc(#[trigger] items[j]))
            ==> fails_with(
            arcs_of::<'a>(replies, at),
            match items[k].content {
                ItemContent::Undecodable(reason) => reason@,
                ItemContent::Arc(_) => "track arc item has incomplete IPC geometry"@,
                _ => "the item is another message"@,
            },
        ),
        !(items[k].content is Via) && (forall|j: int|
            0 <= j < k ==> (#[trigger] items[j]).content is Via) ==> fails_with(
            vias_of::<'a>(replies, at),
            match items[k].content {
                ItemContent::Undecodable(reason) => reason@,
                _ => "the item is another message"@,
            },
        ),
        !is_plain_piece(items[k]) && (forall|j: int|
            0 <= j < k ==> is_plain_piece(#[trigger] items[j])) ==> fails_with(
            edges_of::<'a>(replies, at),
            match items[k].content {
                ItemContent::Undecodable(reason) => reason@,
                ItemContent::Shape(shape) => if shape.shape matches Some(own) && own.geometry
                    is Some {
                    "unsupported Edge.Cuts primitive returned by KiCad IPC"@
                } else {
                    "Edge.Cuts item has no IPC geometry"@
                },
                _ => "the item is another message"@,
            },
        ),
{
    reveal(arcs_of);
    reveal(vias_of);
    reveal(edges_of);
    let arc = |item: Item| crate::tracks::listed_arc(item);
    let via_of = |item: Item| crate::tracks::required_via(item);
    let edge = |item: Item| crate::geometry::listed_edge(item);
    if !is_whole_arc(items[k]) && (forall|j: int| 0 <= j < k ==> is_whole_arc(#[trigger] items[j])) {
        assert forall|j: int| 0 <= j < k implies arc(#[trigger] items[j]) is Ok by {
            assert(is_whole_arc(items[j]));
        }
        lemma_first_failure(items, arc, k);
    }
    if !(items[k].content is Via) && (forall|j: int|
        0 <= j < k ==> (#[trigger] items[j]).content is Via) {
        assert forall|j: int| 0 <= j < k implies via_of(#[trigger] items[j]) is Ok by {}
        lemma_first_failure(items, via_of, k);
    }
    if !is_plain_piece(items[k]) && (forall|j: int|
        0 <= j < k ==> is_plain_piece(#[trigger] items[j])) {
        assert forall|j: int| 0 <= j < k implies edge(#[trigger] items[j]) is Ok by {
            assert(is_plain_piece(items[j]));
        }
        lemma_first_failure(items, edge, k);
    }
}

// Requests about items.

/// A request that KiCad did not take fails with the operation and the status that KiCad named.
pub proof fn a_refused_request_is_told_with_its_status(status: RequestStatus, operation: Seq<char>)
    ensures
        status.ok ==> request_verdict(status, operation) is Ok,
        !status.ok ==> request_verdict(status, operation) == Err::<(), Seq<CauseView>>(
            seq![
                CauseView::Text("KiCad "@ + operation + " request failed with "@ + status.name@),
            ],
        ),
{
}

/// What is said of one item that was not created.
pub open spec fn told_of(index: int, result: CreateResult) -> Seq<char> {
    "item "@ + decimal(index as nat) + ": "@ + (match result.status {
        Some(status) => status.code_name@,
        None => "ISC_UNKNOWN"@,
    }) + " ("@ + (match result.status {
        Some(status) => if status.error_message@.len() == 0 {
            "no error message"@
        } else {
            status.error_message@
        },
        None => "no error message"@,
    }) + ")"@
}

/// A creation that fails says why: the status, that nothing was created, or how many items were
/// created of how many, with each of the others by its place.
pub proof fn a_failed_creation_says_why(
    status: RequestStatus,
    results: Seq<CreateResult>,
    expected: nat,
)
    ensures
        !status.ok ==> creation_verdict(status, results, expected) == Err::<(), Seq<CauseView>>(
            seq![CauseView::Text("KiCad item creation request failed with "@ + status.name@)],
        ),
        status.ok && results.len() == 0 ==> creation_verdict(status, results, expected) == Err::<
            (),
            Seq<CauseView>,
        >(
            seq![
                CauseView::Text(
                    "KiCad created no items: the CreateItems response carried no items at all ("@
                        + decimal(expected) + " requested)"@,
                ),
            ],
        ),
        status.ok && results.len() > 0 && creation_verdict(status, results, expected) is Err ==> ({
            let count = results.filter(|r: CreateResult| is_evidence(r)).len();
            let told = rejections(results);
            creation_verdict(status, results, expected) == Err::<(), Seq<CauseView>>(
                seq![
                    CauseView::Text(
                        "KiCad created "@ + decimal(count) + " of "@ + decimal(expected)
                            + " requested items"@ + (if told.len() == 0 {
                            ""@
                        } else {
                            ": "@
                        }) + joined(told, "; "@),
                    ),
                ],
            )
        }),
{
    crate::laws::talking::a_creation_is_done_where_there_is_evidence(status, results, expected);
    crate::laws::talking::lemma_created_count(results);
    assert("KiCad "@ + "item creation"@ + " request failed with "@
        =~= "KiCad item creation request failed with "@) by {
        reveal_strlit("KiCad ");
        reveal_strlit("item creation");
        reveal_strlit(" request failed with ");
        reveal_strlit("KiCad item creation request failed with ");
    }
}

/// The items that were not created are told in order: one more item adds a text of its own
/// where there is no evidence for it, and nothing where there is.
pub proof fn each_item_that_was_not_created_is_told(
    results: Seq<CreateResult>,
    result: CreateResult,
)
    ensures
        rejections(Seq::<CreateResult>::empty()).len() == 0,
        rejections(results.push(result)) == (if is_evidence(result) {
            rejections(results)
        } else {
            rejections(results).push(told_of(results.len() as int, result))
        }),
{
    let pick = |index: int, result: CreateResult| crate::mutate::rejection(index, result);
    assert(results.push(result).drop_last() =~= results);
    assert(gather_indexed(results.push(result), pick) =~= gather_indexed(results, pick) + pick(
        results.len() as int,
        result,
    ));
}

/// What is wrong with one result of an update.
pub open spec fn is_update_fault(result: UpdateResult, said: Seq<char>) -> bool {
    match result.status {
        None => said == "KiCad returned an update result without item status"@,
        Some(status) => !(status.code is IscOk) && said == "KiCad item update failed: "@
            + status.error_message@ + " ("@ + status.code_name@ + ")"@,
    }
}

pub open spec fn is_updated(result: UpdateResult) -> bool {
    result.status matches Some(status) && status.code is IscOk
}

proof fn lemma_update_fault_from(results: Seq<UpdateResult>, i: int)
    requires
        0 <= i <= results.len(),
    ensures
        match crate::mutate::update_fault_from(results, i) {
            Some(said) => exists|j: int|
                i <= j < results.len() && is_update_fault(#[trigger] results[j], said) && forall|
                    k: int,
                |
                    i <= k < j ==> is_updated(#[trigger] results[k]),
            None => forall|k: int| i <= k < results.len() ==> is_updated(#[trigger] results[k]),
        },
    decreases results.len() - i,
{
    if i < results.len() {
        match crate::mutate::update_fault(results[i]) {
            Some(said) => {
                assert(is_update_fault(results[i], said));
            },
            None => {
                lemma_update_fault_from(results, i + 1);
                if let Some(said) = crate::mutate::update_fault_from(results, i + 1) {
                    let j = choose|j: int|
                        i + 1 <= j < results.len() && is_update_fault(#[trigger] results[j], said)
                            && forall|k: int| i + 1 <= k < j ==> is_updated(#[trigger] results[k]);
                    assert(is_update_fault(results[j], said));
                    assert forall|k: int| i <= k < j implies is_updated(#[trigger] results[k]) by {}
                }
            },
        }
    }
}

/// An update that fails says why: the status, that the results do not match the request, or
/// what is wrong with the first item that was not updated.
pub proof fn a_failed_update_says_why(
    status: RequestStatus,
    results: Seq<UpdateResult>,
    expected: nat,
)
    ensures
        status.ok && results.len() != expected ==> update_verdict(status, results, expected)
            == Err::<(), Seq<CauseView>>(
            seq![
                CauseView::Text(
                    "KiCad returned "@ + decimal(results.len()) + " update results for "@ + decimal(
                        expected,
                    ) + " requested items"@,
                ),
            ],
        ),
        status.ok && results.len() == expected ==> match update_verdict(
            status,
            results,
            expected,
        ) {
            Ok(_) => forall|k: int| 0 <= k < results.len() ==> is_updated(#[trigger] results[k]),
            Err(causes) => causes.len() == 1 && exists|j: int|
                0 <= j < results.len() && is_update_fault(
                    #[trigger] results[j],
                    causes[0].text(),
                ) && forall|k: int| 0 <= k < j ==> is_updated(#[trigger] results[k]),
        },
        !status.ok ==> update_verdict(status, results, expected) == request_verdict(
            status,
            "item update"@,
        ),
{
    lemma_update_fault_from(results, 0);
}

/// A deletion that fails says why; where the number of results does not match, how many came
/// for how many.
pub proof fn a_failed_deletion_says_why(
    status: RequestStatus,
    results: Seq<DeleteResult>,
    ids: Seq<Seq<char>>,
)
    ensures
        !status.ok ==> deletion_verdict(status, results, ids) == request_verdict(
            status,
            "item deletion"@,
        ),
        status.ok && results.len() > 0 && results.len() != ids.len() ==> deletion_verdict(
            status,
            results,
            ids,
        ) == Err::<(), Seq<CauseView>>(
            seq![
                CauseView::Text(
                    "KiCad returned "@ + decimal(results.len()) + " deletion results for "@
                        + decimal(ids.len()) + " requested items"@,
                ),
            ],
        ),
        status.ok && results.len() > 0 && results.len() == ids.len() ==> match results[0].id {
            None => deletion_verdict(status, results, ids) == Err::<(), Seq<CauseView>>(
                seq![
                    CauseView::Text(
                        "KiCad returned a deletion result without an item identifier"@,
                    ),
                ],
            ),
            Some(id) => {
                &&& !ids.contains(id@) ==> deletion_verdict(status, results, ids) == Err::<
                    (),
                    Seq<CauseView>,
                >(
                    seq![
                        CauseView::Text(
                            "KiCad returned a deletion result for unexpected item '"@ + id@ + "'"@,
                        ),
                    ],
                )
                &&& ids.contains(id@) && !results[0].ok ==> deletion_verdict(status, results, ids)
                    == Err::<(), Seq<CauseView>>(
                    seq![
                        CauseView::Text(
                            "KiCad failed to delete item '"@ + id@ + "': "@
                                + results[0].status_name@,
                        ),
                    ],
                )
            },
        },
{
}

/// A request about no item is not sent, and a deletion that names an item twice is refused
/// before it is sent.
pub proof fn idle_and_doubled_requests_are_not_sent<'a>(
    document: DocumentSpecifier,
    items: NewItems<'a>,
    updates: ItemUpdates<'a>,
    ids: &'a Vec<String>,
    replies: Seq<Reply>,
    at: int,
)
    ensures
        (items matches NewItems::Packed(packed) && packed@.len() == 0) ==> created_in(
            document,
            items,
            replies,
            at,
        ) == Progress::<'a, ()>::Done(Ok(()), at),
        (updates matches ItemUpdates::Many(packed) && packed@.len() == 0) ==> updated(
            updates,
            replies,
            at,
        ) == Progress::<'a, ()>::Done(Ok(()), at),
        ids@.len() == 0 ==> deleted(ItemIds::Many(ids), replies, at) == Progress::<'a, ()>::Done(
            Ok(()),
            at,
        ),
        (exists|i: int, j: int|
            0 <= i < j < ids@.len() && (#[trigger] ids@[i])@ == (#[trigger] ids@[j])@)
            ==> fails_with(
            deleted(ItemIds::Many(ids), replies, at),
            "delete request contains duplicate item identifiers"@,
        ),
{
    let all = ItemIds::Many(ids).all();
    assert(all.len() == ids@.len());
    if exists|i: int, j: int|
        0 <= i < j < ids@.len() && (#[trigger] ids@[i])@ == (#[trigger] ids@[j])@ {
        let (i, j) = choose|i: int, j: int|
            0 <= i < j < ids@.len() && (#[trigger] ids@[i])@ == (#[trigger] ids@[j])@;
        assert(all[i] == ids@[i]@ && all[j] == ids@[j]@);
        assert(!all.no_duplicates());
    }
}

// Answers.

/// An answer without a payload, or with another one, fails as such.
pub proof fn an_answer_of_another_kind_is_told<'a>(
    id: Kiid<'a>,
    description: &'a str,
    replies: Seq<Reply>,
    at: int,
    reason: String,
)
    requires
        0 <= at < replies.len(),
    ensures
        replies[at] is Empty ==> fails_with(
            begun::<'a>(replies, at),
            "KiCad returned no "@ + "BeginCommit"@ + " response payload"@,
        ) && fails_with(
            pushed(id, description, replies, at),
            "KiCad returned no "@ + "EndCommit"@ + " response payload"@,
        ),
        replies[at] == Reply::Payload(Response::CommitBegun { id: None }) ==> fails_with(
            begun::<'a>(replies, at),
            "KiCad returned BeginCommit without a commit identifier"@,
        ),
        (replies[at] matches Reply::Payload(Response::CommitBegun { id: Some(own) }) && own@.len()
            == 0) ==> fails_with(
            begun::<'a>(replies, at),
            "KiCad returned an empty commit identifier"@,
        ),
        replies[at] == Reply::Payload(Response::Undecodable(reason)) ==> (begun::<'a>(
            replies,
            at,
        ) matches Progress::Done(Err(causes), _) && causes == seq![
            CauseView::Text("Failed to decode protobuf Any body"@),
            CauseView::Text(reason@),
        ]),
{
    assert(seq![CauseView::Text("Failed to decode protobuf Any body"@)] + seq![
        CauseView::Text(reason@),
    ] =~= seq![
        CauseView::Text("Failed to decode protobuf Any body"@),
        CauseView::Text(reason@),
    ]);
}

/// Where the socket, a timeout or the decoding is what failed, the failure says which.
pub proof fn a_failed_delivery_says_at_which_step(client: KiCadIpcClient, why: String)
    ensures
        concluded(client, Delivery::SocketFailed(why)) matches Err(causes) && causes[0].text()
            == "Failed to create NNG socket"@,
        concluded(client, Delivery::SendTimeoutRefused(why)) matches Err(causes)
            && causes[0].text() == "Failed to set NNG send timeout"@,
        concluded(client, Delivery::ReceiveTimeoutRefused(why)) matches Err(causes)
            && causes[0].text() == "Failed to set NNG receive timeout"@,
        concluded(client, Delivery::Undecodable(why)) matches Err(causes) && causes[0].text()
            == "Failed to decode ApiResponse"@,
        concluded(
            client,
            Delivery::Answered(ApiResponse { status: None, message: None }),
        ) matches Err(causes) && causes[0].text() == "KiCad IPC response is missing its status"@,
{
}

// Commits.

/// A batch that failed, or could not be published, or panicked, is told with its own failure,
/// and with that of the rollback where that failed too.
pub proof fn an_unpublished_batch_says_why<'a>(
    description: &'a str,
    error: IpcError,
    replies: Seq<Reply>,
    at: int,
)
    requires
        error.causes@.len() > 0,
        begun::<'a>(replies, at) is Done,
        begun::<'a>(replies, at)->Done_0 is Ok,
    ensures
        ({
            let id = begun::<'a>(replies, at)->Done_0->Ok_0;
            let used = begun::<'a>(replies, at)->Done_1;
            &&& match dropped(id, replies, used) {
                Progress::Done(Ok(_), end) => {
                    &&& committed(
                        description,
                        Some(Operation::Failed(error)),
                        replies,
                        at,
                    ) matches Progress::Done(Err(causes), tried) && tried == end && causes == seq![
                        CauseView::Text("KiCad batch failed; changes dropped"@),
                    ] + error.deep_view()
                    &&& committed(
                        description,
                        Some(Operation::Panicked),
                        replies,
                        at,
                    ) == Progress::<'a, CommitEnd>::Done(Ok(CommitEnd::Unwind), end)
                },
                Progress::Done(Err(rollback), _) => rollback.len() > 0 ==> {
                    &&& fails_with(
                        committed(description, Some(Operation::Failed(error)), replies, at),
                        "KiCad batch failed ("@ + error.deep_view()[0].text()
                            + "); rollback also failed ("@ + rollback[0].text() + ")"@,
                    )
                    &&& fails_with(
                        committed(description, Some(Operation::Panicked), replies, at),
                        "KiCad batch panicked and rollback failed ("@ + rollback[0].text() + ")"@,
                    )
                },
                Progress::Next(_) => true,
            }
            &&& match pushed(id, description, replies, used) {
                Progress::Done(Err(refusal), at2) => match dropped(id, replies, at2) {
                    Progress::Done(Ok(_), end) => committed(
                        description,
                        Some(Operation::Succeeded),
                        replies,
                        at,
                    ) matches Progress::Done(Err(causes), tried) && tried == end && causes == seq![
                        CauseView::Text("failed to publish KiCad commit; changes dropped"@),
                    ] + refusal,
                    Progress::Done(Err(rollback), _) => refusal.len() > 0 && rollback.len() > 0
                        ==> fails_with(
                        committed(description, Some(Operation::Succeeded), replies, at),
                        "failed to publish KiCad commit ("@ + refusal[0].text()
                            + "); rollback also failed ("@ + rollback[0].text() + ")"@,
                    ),
                    Progress::Next(_) => true,
                },
                _ => true,
            }
        }),
{
    assert(error.deep_view().len() == error.causes@.len());
}

// Placing.

/// A footprint is created, as it was built, in the board that was asked for, and only once that
/// board was seen to have none with its reference; a reference that is taken is named.
pub proof fn a_footprint_is_created_on_the_requested_board<'a>(
    requested: PathFacts,
    reference: Seq<char>,
    item: Result<FootprintItem, IpcError>,
    replies: Seq<Reply>,
    at: int,
    documents: Vec<OpenDocument>,
    k: int,
    items: Vec<Item>,
)
    requires
        0 <= at && replies.len() == at + 2,
        replies[at] == Reply::Payload(Response::OpenDocuments(documents)),
        is_first_wanted(documents@, requested, k),
        replies[at + 1] == Reply::Payload(Response::Items(items)),
        item is Ok,
    ensures
        match footprint_placed::<'a>(requested, reference, item, replies, at) {
            Progress::Next(
                Task::Send(Command::CreateItems { document, items: NewItems::Footprint(built) }),
            ) => {
                &&& *document == documents@[k].document
                &&& item == Ok::<FootprintItem, IpcError>(*built)
                &&& forall|j: int|
                    0 <= j < items@.len() ==> !bears_reference(#[trigger] items@[j], reference)
            },
            Progress::Done(Err(causes), _) => causes == seq![
                CauseView::Text(
                    "footprint reference '"@ + reference + "' already exists on the board"@,
                ),
            ] && exists|j: int|
                0 <= j < items@.len() && bears_reference(#[trigger] items@[j], reference),
            _ => false,
        },
{
    crate::laws::looking::the_first_wanted_board_is_taken(requested, replies, at, documents);
    let found = choose|f: int|
        #[trigger] is_first_wanted(documents@, requested, f) && open_board::<'a>(
            requested,
            replies,
            at,
        )->Done_0->Ok_0 == documents@[f].document;
    assert(is_wanted(documents@[k], requested));
    assert(found == k) by {
        if found < k {
            assert(!is_wanted(documents@[found], requested));
        }
        if k < found {
            assert(!is_wanted(documents@[k], requested));
        }
    }
    lemma_listed(items@, reference);
}

proof fn lemma_listed(items: Seq<Item>, reference: Seq<char>)
    ensures
        crate::items::footprint_named_from(
            gather(items, |i: Item| crate::items::listed_footprint(i)),
            reference,
            0,
        ) is Some <==> exists|j: int|
            0 <= j < items.len() && bears_reference(#[trigger] items[j], reference),
    decreases items.len(),
{
    let pick = |i: Item| crate::items::listed_footprint(i);
    let listed = gather(items, pick);
    crate::edits::lemma_footprint_named(listed, reference, 0);
    assert(reference.len() == 0 <==> reference =~= Seq::<char>::empty());
    if items.len() > 0 {
        let front = items.drop_last();
        lemma_listed(front, reference);
        let before = gather(front, pick);
        crate::edits::lemma_footprint_named(before, reference, 0);
        let last = items.last();
        assert(listed == before + pick(last));
        assert(bears_reference(last, reference) <==> exists|j: int|
            0 <= j < pick(last).len() && (#[trigger] pick(last)[j]).reference == reference) by {
            if bears_reference(last, reference) {
                assert(pick(last)[0].reference == reference);
            }
        }
        if crate::items::footprint_named_from(before, reference, 0) is Some {
            let f = crate::items::footprint_named_from(before, reference, 0)->Some_0;
            let j = choose|j: int| 0 <= j < before.len() && before[j] == f;
            assert(listed[j].reference == reference);
            let i = choose|i: int|
                0 <= i < front.len() && bears_reference(#[trigger] front[i], reference);
            assert(items[i] == front[i]);
        }
        if bears_reference(last, reference) {
            let j = choose|j: int|
                0 <= j < pick(last).len() && (#[trigger] pick(last)[j]).reference == reference;
            assert(listed[before.len() + j].reference == reference);
            assert(bears_reference(items[items.len() - 1], reference));
        }
        if exists|j: int| 0 <= j < items.len() && bears_reference(#[trigger] items[j], reference) {
            let i = choose|i: int|
                0 <= i < items.len() && bears_reference(#[trigger] items[i], reference);
            if i < front.len() {
                assert(bears_reference(front[i], reference));
            }
        }
        if crate::items::footprint_named_from(listed, reference, 0) is Some {
            let f = crate::items::footprint_named_from(listed, reference, 0)->Some_0;
            let j = choose|j: int| 0 <= j < listed.len() && listed[j] == f;
            if j < before.len() {
                assert(before[j].reference == reference);
            } else {
                assert(pick(last)[j - before.len()].reference == reference);
            }
        }
    } else {
        assert(listed.len() == 0);
    }
}

/// A footprint that is still listed after its deletion was accepted is named.
pub proof fn a_footprint_that_stays_is_named<'a>(
    reference: Seq<char>,
    replies: Seq<Reply>,
    at: int,
    before: Seq<Item>,
    board: DocumentSpecifier,
    status: RequestStatus,
    results: Vec<DeleteResult>,
    after: Seq<Item>,
    k: int,
)
    requires
        sends_items(replies, at, before),
        exists|i: int| 0 <= i < before.len() && is_identified(#[trigger] before[i], reference),
        names_board(replies, at + 2, board),
        at + 3 < replies.len(),
        replies[at + 3] == Reply::Payload(Response::Deleted { status, results }),
        status.ok && results@.len() == 0,
        sends_items(replies, at + 4, after),
        0 <= k < after.len() && is_identified(after[k], reference),
    ensures
        fails_with(
            footprint_deleted::<'a>(reference, replies, at),
            "KiCad reported no error but footprint '"@ + reference + "' is still on the board"@,
        ),
{
    lemma_some_kiid(before, reference, 0);
    lemma_some_kiid(after, reference, 0);
    let id = crate::items::kiid_from::<'a>(before, reference, 0)->Some_0;
    assert(ItemIds::One(id.value).all().no_duplicates());
    assert(ItemIds::One(id.value).all().len() == 1);
    assert(deleted(ItemIds::One(id.value), replies, at + 2) == Progress::<'a, ()>::Done(
        Ok(()),
        at + 4,
    ));
}

proof fn lemma_some_kiid(items: Seq<Item>, name: Seq<char>, i: int)
    requires
        0 <= i,
        exists|j: int| i <= j < items.len() && is_identified(#[trigger] items[j], name),
    ensures
        crate::items::kiid_from(items, name, i) is Some,
    decreases items.len() - i,
{
    let j = choose|j: int| i <= j < items.len() && is_identified(#[trigger] items[j], name);
    assert(name.len() == 0 <==> name =~= Seq::<char>::empty());
    if j > i {
        lemma_some_kiid(items, name, i + 1);
    }
}

/// A footprint that was created and is not listed afterwards is named, with the references that
/// are.
pub proof fn a_footprint_that_does_not_come_is_named<'a>(
    requested: PathFacts,
    reference: Seq<char>,
    item: Result<FootprintItem, IpcError>,
    replies: Seq<Reply>,
    at: int,
    documents: Vec<OpenDocument>,
    before: Vec<Item>,
    status: RequestStatus,
    results: Vec<CreateResult>,
    after: Vec<Item>,
    listed: Seq<Seq<char>>,
)
    requires
        0 <= at && at + 3 < replies.len(),
        replies[at] == Reply::Payload(Response::OpenDocuments(documents)),
        exists|k: int| is_first_wanted(documents@, requested, k),
        replies[at + 1] == Reply::Payload(Response::Items(before)),
        forall|j: int| 0 <= j < before@.len() ==> !bears_reference(#[trigger] before@[j], reference),
        item is Ok,
        replies[at + 2] == Reply::Payload(Response::Created { status, results }),
        creation_verdict(status, results@, 1) is Ok,
        replies[at + 3] == Reply::Payload(Response::Items(after)),
        forall|j: int| 0 <= j < after@.len() ==> !bears_reference(#[trigger] after@[j], reference),
        listed == crate::items::footprints_in::<'a>(
            documents@[0].document,
            replies,
            at + 3,
        )->Done_0->Ok_0.map_values(|f: FootprintView| f.reference),
    ensures
        fails_with(
            footprint_placed::<'a>(requested, reference, item, replies, at),
            "KiCad created the footprint but reference '"@ + reference
                + "' was not found (board references: "@ + joined(listed, ", "@) + ")"@,
        ),
{
    crate::laws::looking::the_first_wanted_board_is_taken(requested, replies, at, documents);
    let k = choose|k: int| is_first_wanted(documents@, requested, k);
    assert(is_wanted(documents@[k], requested));
    lemma_listed(before@, reference);
    lemma_listed(after@, reference);
}

} // verus!
