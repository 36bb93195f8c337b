//! Changes to the board, one at a time.

use crate::board::{FootprintView, IpcFootprint};
use crate::envelope::KiCadIpcClient;
use crate::error::{plain, IpcError};
use crate::footprint_item::FootprintItem;
use crate::items::{
    as_footprint, field_text, first_kiid, footprint_kiid, footprint_named_from, footprint_of,
    footprints_in, kiid_from, kiid_if_named, take_named, text_of_field,
};
use crate::messages::{
    DocumentSpecifier, FootprintInstance, Item, ItemKind, PackedItem, PathFacts, Vector2,
};
use crate::mutate::{created, created_in, deleted, updated};
use crate::scalar::{zero, zero_spec, Scalar};
use crate::session::{items_of, net_code, open_board, or_origin, vector_or_origin};
use crate::step::{
    apply_edit, edited, followed, judged, FootprintEdit, ItemIds, ItemUpdates, Kiid, NewItems,
    NewTrack, NewVia, Progress, Reply, Step,
};
use crate::text;
use crate::text::{joined, text_or_empty};
use crate::tracks::item_present;
use vstd::prelude::*;
use vstd::string::*;

verus! {

// Tracks and vias.

/// Adds a track on a net of the board.
pub open spec fn track_added<'a>(
    net_name: &'a str,
    layer: &'a str,
    width: Scalar,
    from: (Scalar, Scalar),
    to: (Scalar, Scalar),
    replies: Seq<Reply>,
    at: int,
) -> Progress<'a, ()> {
    followed(
        net_code(net_name@, replies, at),
        |code: i32, used: int|
            created(
                NewItems::Track(
                    NewTrack {
                        net_name,
                        net_code: code,
                        layer,
                        width,
                        x1: from.0,
                        y1: from.1,
                        x2: to.0,
                        y2: to.1,
                    },
                ),
                replies,
                used,
            ),
    )
}

/// Adds a through via on a net of the board.
pub open spec fn via_added<'a>(
    net_name: &'a str,
    x: Scalar,
    y: Scalar,
    drill: Scalar,
    pad_size: Scalar,
    replies: Seq<Reply>,
    at: int,
) -> Progress<'a, ()> {
    followed(
        net_code(net_name@, replies, at),
        |code: i32, used: int|
            created(
                NewItems::Via(NewVia { net_name, net_code: code, x, y, drill, pad_size }),
                replies,
                used,
            ),
    )
}

/// Deletes an item that must be of the kind expected.
pub open spec fn item_deleted<'a>(
    uuid: &'a String,
    expected: ItemKind,
    kind: Seq<char>,
    replies: Seq<Reply>,
    at: int,
) -> Progress<'a, ()> {
    followed(
        item_present(uuid@, expected, kind, replies, at),
        |found: (), used: int| deleted(ItemIds::One(uuid), replies, used),
    )
}

impl KiCadIpcClient {
    /// Adds a track segment.
    pub fn add_track<'a>(
        &self,
        net_name: &'a str,
        layer: &'a str,
        width: Scalar,
        from: (Scalar, Scalar),
        to: (Scalar, Scalar),
        replies: &'a Vec<Reply>,
        at: usize,
    ) -> (r: Step<'a, ()>)
        ensures
            r.deep_view() == track_added(net_name, layer, width, from, to, replies@, at as int),
    {
        match self.resolve_net_code(net_name, replies, at) {
            Step::Next(task) => Step::Next(task),
            Step::Done(Err(error), used) => Step::Done(Err(error), used),
            Step::Done(Ok(code), used) => {
                let track = NewTrack {
                    net_name,
                    net_code: code,
                    layer,
                    width,
                    x1: from.0,
                    y1: from.1,
                    x2: to.0,
                    y2: to.1,
                };
                self.create_items(NewItems::Track(track), replies, used)
            },
        }
    }

    /// Adds a through via.
    pub fn add_via<'a>(
        &self,
        net_name: &'a str,
        x: Scalar,
        y: Scalar,
        drill: Scalar,
        pad_size: Scalar,
        replies: &'a Vec<Reply>,
        at: usize,
    ) -> (r: Step<'a, ()>)
        ensures
            r.deep_view() == via_added(net_name, x, y, drill, pad_size, replies@, at as int),
    {
        match self.resolve_net_code(net_name, replies, at) {
            Step::Next(task) => Step::Next(task),
            Step::Done(Err(error), used) => Step::Done(Err(error), used),
            Step::Done(Ok(code), used) => {
                let via = NewVia { net_name, net_code: code, x, y, drill, pad_size };
                self.create_items(NewItems::Via(via), replies, used)
            },
        }
    }

    /// Deletes a track by its identifier.
    pub fn delete_track<'a>(&self, uuid: &'a String, replies: &'a Vec<Reply>, at: usize) -> (r:
        Step<'a, ()>)
        ensures
            r.deep_view() == item_deleted(uuid, ItemKind::Trace, "trace"@, replies@, at as int),
    {
        match self.ensure_item_kind(uuid.as_str(), ItemKind::Trace, "trace", replies, at) {
            Step::Next(task) => Step::Next(task),
            Step::Done(Err(error), used) => Step::Done(Err(error), used),
            Step::Done(Ok(_), used) => self.delete_items(ItemIds::One(uuid), replies, used),
        }
    }

    /// Deletes a via by its identifier.
    pub fn delete_via<'a>(&self, uuid: &'a String, replies: &'a Vec<Reply>, at: usize) -> (r: Step<
        'a,
        (),
    >)
        ensures
            r.deep_view() == item_deleted(uuid, ItemKind::Via, "via"@, replies@, at as int),
    {
        match self.ensure_item_kind(uuid.as_str(), ItemKind::Via, "via", replies, at) {
            Step::Next(task) => Step::Next(task),
            Step::Done(Err(error), used) => Step::Done(Err(error), used),
            Step::Done(Ok(_), used) => self.delete_items(ItemIds::One(uuid), replies, used),
        }
    }
}

// Footprints.

/// Whether an item is a footprint with a reference.
pub open spec fn is_named(item: Item, reference: Seq<char>) -> bool {
    as_footprint(item) matches Ok(fp) && text_or_empty(text_of_field(fp.reference_field))
        == reference
}

/// The first such footprint at or after `i`.
pub open spec fn named_from(items: Seq<Item>, reference: Seq<char>, i: int) -> Option<int>
    decreases items.len() - i,
{
    if i < 0 || i >= items.len() {
        None
    } else if is_named(items[i], reference) {
        Some(i)
    } else {
        named_from(items, reference, i + 1)
    }
}

pub open spec fn unknown_footprint_text(reference: Seq<char>) -> Seq<char> {
    "Footprint '"@ + reference + "' not found"@
}

pub open spec fn no_value_text(reference: Seq<char>) -> Seq<char> {
    "Footprint '"@ + reference + "' has no editable value field"@
}

/// How a footprint is to be changed.
#[derive(Clone, Copy, Debug)]
pub enum Change<'a> {
    Move(Vector2),
    Rotate(Scalar),
    Value(&'a str),
}

/// The edit that a change comes to, given the footprint as it is. The children of a footprint
/// lie in absolute board coordinates, so they go where its anchor goes and turn with it.
pub open spec fn edit_of<'a>(fp: FootprintInstance, change: Change<'a>) -> Option<
    FootprintEdit<'a>,
> {
    match change {
        Change::Move(to) => Some(FootprintEdit::MoveTo { from: vector_or_origin(fp.position), to }),
        Change::Rotate(to) => Some(
            FootprintEdit::RotateTo {
                anchor: vector_or_origin(fp.position),
                from: match fp.orientation {
                    Some(angle) => angle,
                    None => zero_spec(),
                },
                to,
            },
        ),
        Change::Value(value) => if text_of_field(fp.value_field) is None {
            None
        } else {
            Some(
                FootprintEdit::SetValue {
                    value,
                    in_definition: fp.definition matches Some(definition) && text_of_field(
                        definition.value_field,
                    ) is Some,
                },
            )
        },
    }
}

/// Changes the first footprint with a reference.
pub open spec fn footprint_changed<'a>(
    reference: Seq<char>,
    change: Change<'a>,
    replies: Seq<Reply>,
    at: int,
) -> Progress<'a, ()> {
    followed(
        items_of(ItemKind::Footprint, replies, at),
        |items: Seq<Item>, at2: int|
            match named_from(items, reference, 0) {
                None => Progress::Done(Err(plain(unknown_footprint_text(reference))), at2),
                Some(i) => match edit_of(as_footprint(items[i])->Ok_0, change) {
                    None => Progress::Done(Err(plain(no_value_text(reference))), at2),
                    Some(edit) => followed(
                        edited(replies, at2, items[i], edit),
                        |packed: PackedItem, at3: int|
                            updated(ItemUpdates::One(&packed), replies, at3),
                    ),
                },
            },
    )
}

fn bears_reference(fp: &FootprintInstance, reference: &str) -> (r: bool)
    ensures
        r == (text_or_empty(text_of_field(fp.reference_field)) == reference@),
{
    match field_text(&fp.reference_field) {
        Some(t) => text::same(t.as_str(), reference),
        None => {
            proof {
                if reference@.len() == 0 {
                    assert(reference@ == Seq::<char>::empty());
                }
            }
            reference.is_empty()
        },
    }
}

fn plan_edit<'a>(fp: &FootprintInstance, change: Change<'a>) -> (r: Option<FootprintEdit<'a>>)
    ensures
        r == edit_of(*fp, change),
{
    match change {
        Change::Move(to) => Some(FootprintEdit::MoveTo { from: or_origin(fp.position), to }),
        Change::Rotate(to) => Some(
            FootprintEdit::RotateTo {
                anchor: or_origin(fp.position),
                from: match fp.orientation {
                    Some(angle) => angle,
                    None => zero(),
                },
                to,
            },
        ),
        Change::Value(value) => match field_text(&fp.value_field) {
            None => None,
            Some(_) => {
                let in_definition = match &fp.definition {
                    Some(definition) => match field_text(&definition.value_field) {
                        Some(_) => true,
                        None => false,
                    },
                    None => false,
                };
                Some(FootprintEdit::SetValue { value, in_definition })
            },
        },
    }
}

fn quoted(head: &str, reference: &str, tail: &str) -> (r: IpcError)
    ensures
        r.deep_view() == plain(head@ + reference@ + tail@),
{
    let mut message = head.to_owned();
    message.append(reference);
    message.append(tail);
    IpcError::new(message)
}

impl KiCadIpcClient {
    fn change_footprint<'a>(
        &self,
        reference: &str,
        change: Change<'a>,
        replies: &'a Vec<Reply>,
        at: usize,
    ) -> (r: Step<'a, ()>)
        ensures
            r.deep_view() == footprint_changed(reference@, change, replies@, at as int),
    {
        let (items, at2) = match self.get_items(ItemKind::Footprint, replies, at) {
            Step::Next(task) => {
                return Step::Next(task);
            },
            Step::Done(Err(error), used) => {
                return Step::Done(Err(error), used);
            },
            Step::Done(Ok(items), used) => (items, used),
        };
        let ghost all = items.deep_view();
        let mut i: usize = 0;
        while i < items.len()
            invariant
                i <= items@.len(),
                all == items.deep_view(),
                items_of(ItemKind::Footprint, replies@, at as int) == Progress::Done(
                    Ok(all),
                    at2 as int,
                ),
                named_from(all, reference@, 0) == named_from(all, reference@, i as int),
            decreases items@.len() - i,
        {
            assert(all[i as int] == *items@[i as int]);
            if let Ok(fp) = footprint_of(items[i]) {
                if bears_reference(fp, reference) {
                    let edit = match plan_edit(fp, change) {
                        None => {
                            let error = quoted(
                                "Footprint '",
                                reference,
                                "' has no editable value field",
                            );
                            return Step::Done(Err(error), at2);
                        },
                        Some(edit) => edit,
                    };
                    return match apply_edit(replies, at2, items[i], edit) {
                        Step::Next(task) => Step::Next(task),
                        Step::Done(Err(error), used) => Step::Done(Err(error), used),
                        Step::Done(Ok(packed), used) => self.update_items(
                            ItemUpdates::One(packed),
                            replies,
                            used,
                        ),
                    };
                }
            }
            i += 1;
        }
        Step::Done(Err(quoted("Footprint '", reference, "' not found")), at2)
    }

    /// Moves a footprint, with all that belongs to it.
    pub fn move_footprint<'a>(
        &self,
        reference: &str,
        to: Vector2,
        replies: &'a Vec<Reply>,
        at: usize,
    ) -> (r: Step<'a, ()>)
        ensures
            r.deep_view() == footprint_changed(
                reference@,
                Change::Move(to),
                replies@,
                at as int,
            ),
    {
        self.change_footprint(reference, Change::Move(to), replies, at)
    }

    /// Turns a footprint to an angle, with all that belongs to it.
    pub fn rotate_footprint<'a>(
        &self,
        reference: &str,
        angle: Scalar,
        replies: &'a Vec<Reply>,
        at: usize,
    ) -> (r: Step<'a, ()>)
        ensures
            r.deep_view() == footprint_changed(
                reference@,
                Change::Rotate(angle),
                replies@,
                at as int,
            ),
    {
        self.change_footprint(reference, Change::Rotate(angle), replies, at)
    }

    /// Sets the value field of a footprint.
    pub fn set_footprint_value<'a>(
        &self,
        reference: &str,
        value: &'a str,
        replies: &'a Vec<Reply>,
        at: usize,
    ) -> (r: Step<'a, ()>)
        ensures
            r.deep_view() == footprint_changed(
                reference@,
                Change::Value(value),
                replies@,
                at as int,
            ),
    {
        self.change_footprint(reference, Change::Value(value), replies, at)
    }
}

pub open spec fn still_there_text(reference: Seq<char>) -> Seq<char> {
    "KiCad reported no error but footprint '"@ + reference + "' is still on the board"@
}

/// Deletes a footprint and looks whether it is gone. Where the look fails, so does the deletion.
pub open spec fn footprint_deleted<'a>(reference: Seq<char>, replies: Seq<Reply>, at: int) -> Progress<
    'a,
    (),
> {
    followed(
        footprint_kiid(reference, replies, at),
        |id: Kiid<'a>, at2: int|
            followed(
                deleted(ItemIds::One(id.value), replies, at2),
                |done: (), at3: int|
                    judged(
                        items_of(ItemKind::Footprint, replies, at3),
                        |items: Seq<Item>|
                            match kiid_from(items, reference, 0) {
                                None => Ok(()),
                                Some(_) => Err(plain(still_there_text(reference))),
                            },
                    ),
            ),
    )
}

pub open spec fn already_there_text(reference: Seq<char>) -> Seq<char> {
    "footprint reference '"@ + reference + "' already exists on the board"@
}

/// The references of footprints, in order.
pub open spec fn references(footprints: Seq<FootprintView>) -> Seq<Seq<char>> {
    footprints.map_values(|f: FootprintView| f.reference)
}

pub open spec fn not_placed_text(reference: Seq<char>, footprints: Seq<FootprintView>) -> Seq<char> {
    "KiCad created the footprint but reference '"@ + reference
        + "' was not found (board references: "@ + joined(references(footprints), ", "@) + ")"@
}

/// Places a footprint on an open board that has none with its reference, and looks it up.
pub open spec fn footprint_placed<'a>(
    board: PathFacts,
    reference: Seq<char>,
    item: Result<FootprintItem, IpcError>,
    replies: Seq<Reply>,
    at: int,
) -> Progress<'a, FootprintView> {
    followed(
        open_board(board, replies, at),
        |document: DocumentSpecifier, at2: int|
            followed(
                footprints_in(document, replies, at2),
                |before: Seq<FootprintView>, at3: int|
                    if footprint_named_from(before, reference, 0) is Some {
                        Progress::Done(Err(plain(already_there_text(reference))), at3)
                    } else {
                        match item {
                            Err(error) => Progress::Done(Err(error.deep_view()), at3),
                            Ok(footprint) => followed(
                                created_in(
                                    document,
                                    NewItems::Footprint(&footprint),
                                    replies,
                                    at3,
                                ),
                                |done: (), at4: int|
                                    followed(
                                        footprints_in(document, replies, at4),
                                        |after: Seq<FootprintView>, used: int|
                                            match footprint_named_from(after, reference, 0) {
                                                Some(found) => Progress::Done(Ok(found), used),
                                                None => Progress::Done(
                                                    Err(plain(not_placed_text(reference, after))),
                                                    used,
                                                ),
                                            },
                                    ),
                            ),
                        }
                    },
            ),
    )
}

fn lists_reference(footprints: &Vec<IpcFootprint>, reference: &str) -> (r: bool)
    ensures
        r == (footprint_named_from(footprints.deep_view(), reference@, 0) is Some),
{
    let ghost all = footprints.deep_view();
    let mut i: usize = 0;
    while i < footprints.len()
        invariant
            i <= footprints@.len(),
            all == footprints.deep_view(),
            footprint_named_from(all, reference@, 0) == footprint_named_from(
                all,
                reference@,
                i as int,
            ),
        decreases footprints@.len() - i,
    {
        assert(all[i as int] == footprints@[i as int].deep_view());
        if text::same(footprints[i].reference.as_str(), reference) {
            return true;
        }
        i += 1;
    }
    false
}

fn list_references(footprints: &Vec<IpcFootprint>) -> (r: Vec<String>)
    ensures
        r.deep_view() == references(footprints.deep_view()),
{
    let mut out: Vec<String> = Vec::new();
    let mut i: usize = 0;
    while i < footprints.len()
        invariant
            i <= footprints@.len(),
            out@.len() == i,
            forall|j: int| 0 <= j < i ==> (#[trigger] out@[j])@ == footprints@[j].reference@,
        decreases footprints@.len() - i,
    {
        out.push(footprints[i].reference.clone());
        i += 1;
    }
    assert(out.deep_view() =~= references(footprints.deep_view()));
    out
}

impl KiCadIpcClient {
    /// Deletes a footprint by its reference. KiCad says nothing about single deletions, so the
    /// board is asked whether the footprint is gone before success is reported.
    pub fn delete_footprint<'a>(&self, reference: &str, replies: &'a Vec<Reply>, at: usize) -> (r:
        Step<'a, ()>)
        ensures
            r.deep_view() == footprint_deleted(reference@, replies@, at as int),
    {
        let (id, at2) = match self.find_footprint_kiid(reference, replies, at) {
            Step::Next(task) => {
                return Step::Next(task);
            },
            Step::Done(Err(error), used) => {
                return Step::Done(Err(error), used);
            },
            Step::Done(Ok(id), used) => (id, used),
        };
        let at3: usize = match self.delete_items(ItemIds::One(id.value), replies, at2) {
            Step::Next(task) => {
                return Step::Next(task);
            },
            Step::Done(Err(error), used) => {
                return Step::Done(Err(error), used);
            },
            Step::Done(Ok(_), used) => used,
        };
        match self.get_items(ItemKind::Footprint, replies, at3) {
            Step::Next(task) => Step::Next(task),
            Step::Done(Err(error), used) => Step::Done(Err(error), used),
            Step::Done(Ok(items), used) => match first_kiid(&items, reference) {
                None => Step::Done(Ok(()), used),
                Some(_) => Step::Done(
                    Err(
                        quoted(
                            "KiCad reported no error but footprint '",
                            reference,
                            "' is still on the board",
                        ),
                    ),
                    used,
                ),
            },
        }
    }

    /// Places a footprint on the open board that is asked for, not on whichever board is first
    /// in KiCad's list, and looks it up there. `item` is the footprint as it was built.
    pub fn place_footprint<'a>(
        &self,
        board: &PathFacts,
        reference: &str,
        item: &'a Result<FootprintItem, IpcError>,
        replies: &'a Vec<Reply>,
        at: usize,
    ) -> (r: Step<'a, IpcFootprint>)
        ensures
            r.deep_view() == footprint_placed(*board, reference@, *item, replies@, at as int),
    {
        let (document, at2) = match self.find_open_board(board, replies, at) {
            Step::Next(task) => {
                return Step::Next(task);
            },
            Step::Done(Err(error), used) => {
                return Step::Done(Err(error), used);
            },
            Step::Done(Ok(document), used) => (document, used),
        };
        let (before, at3) = match self.list_footprints_in(document, replies, at2) {
            Step::Next(task) => {
                return Step::Next(task);
            },
            Step::Done(Err(error), used) => {
                return Step::Done(Err(error), used);
            },
            Step::Done(Ok(footprints), used) => (footprints, used),
        };
        if lists_reference(&before, reference) {
            let error = quoted("footprint reference '", reference, "' already exists on the board");
            return Step::Done(Err(error), at3);
        }
        let footprint = match item {
            Err(error) => {
                return Step::Done(Err(error.copy()), at3);
            },
            Ok(footprint) => footprint,
        };
        let items = NewItems::Footprint(footprint);
        let at4: usize = match self.create_items_in(document, items, replies, at3) {
            Step::Next(task) => {
                return Step::Next(task);
            },
            Step::Done(Err(error), used) => {
                return Step::Done(Err(error), used);
            },
            Step::Done(Ok(_), used) => used,
        };
        let (after, used) = match self.list_footprints_in(document, replies, at4) {
            Step::Next(task) => {
                return Step::Next(task);
            },
            Step::Done(Err(error), used) => {
                return Step::Done(Err(error), used);
            },
            Step::Done(Ok(footprints), used) => (footprints, used),
        };
        let listed = text::join(&list_references(&after), ", ");
        match take_named(after, reference) {
            Some(found) => Step::Done(Ok(found), used),
            None => {
                let mut message = "KiCad created the footprint but reference '".to_owned();
                message.append(reference);
                message.append("' was not found (board references: ");
                message.append(listed.as_str());
                message.append(")");
                Step::Done(Err(IpcError::new(message)), used)
            },
        }
    }
}

// What success stands for.

proof fn lemma_no_kiid(items: Seq<Item>, reference: Seq<char>, i: int)
    requires
        0 <= i,
        kiid_from(items, reference, i) is None,
    ensures
        forall|j: int|
            i <= j < items.len() ==> kiid_if_named(#[trigger] items[j], reference) is None,
    decreases items.len() - i,
{
    if i < items.len() {
        lemma_no_kiid(items, reference, i + 1);
    }
}

/// A footprint is reported as deleted only after KiCad accepted the deletion of its
/// identifier, then listed the board's footprints, and no footprint with an identifier bears
/// the reference there.
pub proof fn a_deleted_footprint_is_gone(reference: Seq<char>, replies: Seq<Reply>, at: int)
    ensures
        footprint_deleted(reference, replies, at) matches Progress::Done(Ok(_), used) ==> {
            &&& footprint_kiid(reference, replies, at) matches Progress::Done(Ok(id), at2)
            &&& deleted(ItemIds::One(id.value), replies, at2) matches Progress::Done(Ok(_), at3)
            &&& items_of(ItemKind::Footprint, replies, at3) matches Progress::Done(Ok(items), end)
            &&& end == used
            &&& forall|j: int|
                0 <= j < items.len() ==> kiid_if_named(#[trigger] items[j], reference) is None
        },
{
    if let Progress::Done(Ok(_), _) = footprint_deleted(reference, replies, at) {
        let first = footprint_kiid(reference, replies, at);
        let deletion = deleted(ItemIds::One(first->Done_0->Ok_0.value), replies, first->Done_1);
        let listing = items_of(ItemKind::Footprint, replies, deletion->Done_1);
        lemma_no_kiid(listing->Done_0->Ok_0, reference, 0);
    }
}

pub(crate) proof fn lemma_footprint_named(footprints: Seq<FootprintView>, reference: Seq<char>, i: int)
    requires
        0 <= i,
    ensures
        footprint_named_from(footprints, reference, i) matches Some(found) ==> {
            &&& found.reference == reference
            &&& footprints.contains(found)
        },
        footprint_named_from(footprints, reference, i) is None ==> forall|j: int|
            i <= j < footprints.len() ==> (#[trigger] footprints[j]).reference != reference,
    decreases footprints.len() - i,
{
    if i < footprints.len() {
        lemma_footprint_named(footprints, reference, i + 1);
    }
}

/// A footprint is reported as placed only where the board that was asked for had none with
/// its reference, KiCad gave evidence of the creation in that board, and the board then
/// lists it.
pub proof fn a_placed_footprint_is_on_the_board(
    board: PathFacts,
    reference: Seq<char>,
    item: Result<FootprintItem, IpcError>,
    replies: Seq<Reply>,
    at: int,
)
    ensures
        footprint_placed(board, reference, item, replies, at) matches Progress::Done(
            Ok(found),
            used,
        ) ==> {
            &&& found.reference == reference
            &&& open_board(board, replies, at) matches Progress::Done(Ok(document), at2)
            &&& footprints_in(document, replies, at2) matches Progress::Done(Ok(before), at3)
            &&& forall|j: int|
                0 <= j < before.len() ==> (#[trigger] before[j]).reference != reference
            &&& item matches Ok(footprint)
            &&& created_in(
                document,
                NewItems::Footprint(&footprint),
                replies,
                at3,
            ) matches Progress::Done(Ok(_), at4)
            &&& footprints_in(document, replies, at4) matches Progress::Done(Ok(after), end)
            &&& after.contains(found)
            &&& end == used
        },
{
    if let Progress::Done(Ok(found), used) = footprint_placed(board, reference, item, replies, at) {
        let first = open_board(board, replies, at);
        let document = first->Done_0->Ok_0;
        let listed = footprints_in(document, replies, first->Done_1);
        let before = listed->Done_0->Ok_0;
        lemma_footprint_named(before, reference, 0);
        let creation = created_in(
            document,
            NewItems::Footprint(&item->Ok_0),
            replies,
            listed->Done_1,
        );
        let after = footprints_in(document, replies, creation->Done_1)->Done_0->Ok_0;
        lemma_footprint_named(after, reference, 0);
    }
}

} // verus!
