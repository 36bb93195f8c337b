//! What a board's items hold, and its footprints.

use crate::board::{FootprintView, IdentifiedFootprint, IdentifiedFootprintView, IpcFootprint};
use crate::envelope::KiCadIpcClient;
use crate::error::{plain, CauseView, IpcError};
use crate::gather::{gather, lemma_gather_prefix, lemma_gather_step, optional};
use crate::layers::{layer_enum_to_name, layer_name};
use crate::messages::{
    Arc, BoardGraphicShape, ChildContent, ChildItem, DocumentSpecifier, Field, FootprintInstance,
    Item, ItemContent, ItemKind, Net, Pad, Track, Via, Zone,
};
use crate::scalar::{zero, zero_spec};
use crate::session::{board_document, items_in, items_of, or_origin, vector_or_origin};
use crate::step::{followed, judged, Kiid, Progress, Reply, Step};
use crate::text;
use crate::text::{copy_or_empty, text_or_empty};
use vstd::prelude::*;
use vstd::string::*;

verus! {

// What an item holds.

pub open spec fn other_message_text() -> Seq<char> {
    "the item is another message"@
}

/// Why an item is not the message that it should be.
pub open spec fn item_failure(content: ItemContent) -> Seq<CauseView> {
    match content {
        ItemContent::Undecodable(reason) => plain(reason@),
        _ => plain(other_message_text()),
    }
}

fn fail_item(content: &ItemContent) -> (r: IpcError)
    ensures
        r.deep_view() == item_failure(*content),
{
    match content {
        ItemContent::Undecodable(reason) => IpcError::new(reason.clone()),
        _ => IpcError::say("the item is another message"),
    }
}

pub open spec fn as_track(item: Item) -> Result<Track, Seq<CauseView>> {
    match item.content {
        ItemContent::Track(t) => Ok(t),
        other => Err(item_failure(other)),
    }
}

pub open spec fn as_arc(item: Item) -> Result<Arc, Seq<CauseView>> {
    match item.content {
        ItemContent::Arc(a) => Ok(a),
        other => Err(item_failure(other)),
    }
}

pub open spec fn as_via(item: Item) -> Result<Via, Seq<CauseView>> {
    match item.content {
        ItemContent::Via(v) => Ok(v),
        other => Err(item_failure(other)),
    }
}

pub open spec fn as_footprint(item: Item) -> Result<FootprintInstance, Seq<CauseView>> {
    match item.content {
        ItemContent::Footprint(f) => Ok(f),
        other => Err(item_failure(other)),
    }
}

pub open spec fn as_zone(item: Item) -> Result<Zone, Seq<CauseView>> {
    match item.content {
        ItemContent::Zone(z) => Ok(z),
        other => Err(item_failure(other)),
    }
}

pub open spec fn as_shape(item: Item) -> Result<BoardGraphicShape, Seq<CauseView>> {
    match item.content {
        ItemContent::Shape(s) => Ok(s),
        other => Err(item_failure(other)),
    }
}

/// A borrowed value, or why there is none.
pub open spec fn borrowed<'a, T>(r: Result<&'a T, IpcError>) -> Result<T, Seq<CauseView>> {
    match r {
        Ok(t) => Ok(*t),
        Err(e) => Err(e.deep_view()),
    }
}

pub fn track_of<'a>(item: &'a Item) -> (r: Result<&'a Track, IpcError>)
    ensures
        borrowed(r) == as_track(*item),
{
    match &item.content {
        ItemContent::Track(t) => Ok(t),
        other => Err(fail_item(other)),
    }
}

pub fn arc_of<'a>(item: &'a Item) -> (r: Result<&'a Arc, IpcError>)
    ensures
        borrowed(r) == as_arc(*item),
{
    match &item.content {
        ItemContent::Arc(a) => Ok(a),
        other => Err(fail_item(other)),
    }
}

pub fn via_of<'a>(item: &'a Item) -> (r: Result<&'a Via, IpcError>)
    ensures
        borrowed(r) == as_via(*item),
{
    match &item.content {
        ItemContent::Via(v) => Ok(v),
        other => Err(fail_item(other)),
    }
}

pub fn footprint_of<'a>(item: &'a Item) -> (r: Result<&'a FootprintInstance, IpcError>)
    ensures
        borrowed(r) == as_footprint(*item),
{
    match &item.content {
        ItemContent::Footprint(f) => Ok(f),
        other => Err(fail_item(other)),
    }
}

pub fn zone_of<'a>(item: &'a Item) -> (r: Result<&'a Zone, IpcError>)
    ensures
        borrowed(r) == as_zone(*item),
{
    match &item.content {
        ItemContent::Zone(z) => Ok(z),
        other => Err(fail_item(other)),
    }
}

pub fn shape_of<'a>(item: &'a Item) -> (r: Result<&'a BoardGraphicShape, IpcError>)
    ensures
        borrowed(r) == as_shape(*item),
{
    match &item.content {
        ItemContent::Shape(s) => Ok(s),
        other => Err(fail_item(other)),
    }
}

pub open spec fn child_failure(content: ChildContent) -> Seq<CauseView> {
    match content {
        ChildContent::Undecodable(reason) => plain(reason@),
        _ => plain(other_message_text()),
    }
}

fn fail_child(content: &ChildContent) -> (r: IpcError)
    ensures
        r.deep_view() == child_failure(*content),
{
    match content {
        ChildContent::Undecodable(reason) => IpcError::new(reason.clone()),
        _ => IpcError::say("the item is another message"),
    }
}

pub open spec fn as_pad(child: ChildItem) -> Result<Pad, Seq<CauseView>> {
    match child.content {
        ChildContent::Pad(p) => Ok(p),
        other => Err(child_failure(other)),
    }
}

pub fn pad_of<'a>(child: &'a ChildItem) -> (r: Result<&'a Pad, IpcError>)
    ensures
        borrowed(r) == as_pad(*child),
{
    match &child.content {
        ChildContent::Pad(p) => Ok(p),
        other => Err(fail_child(other)),
    }
}

pub open spec fn as_child_shape(child: ChildItem) -> Result<BoardGraphicShape, Seq<CauseView>> {
    match child.content {
        ChildContent::Shape(s) => Ok(s),
        other => Err(child_failure(other)),
    }
}

pub fn child_shape_of<'a>(child: &'a ChildItem) -> (r: Result<&'a BoardGraphicShape, IpcError>)
    ensures
        borrowed(r) == as_child_shape(*child),
{
    match &child.content {
        ChildContent::Shape(s) => Ok(s),
        other => Err(fail_child(other)),
    }
}

pub open spec fn as_child_zone(child: ChildItem) -> Result<Zone, Seq<CauseView>> {
    match child.content {
        ChildContent::Zone(z) => Ok(z),
        other => Err(child_failure(other)),
    }
}

pub fn child_zone_of<'a>(child: &'a ChildItem) -> (r: Result<&'a Zone, IpcError>)
    ensures
        borrowed(r) == as_child_zone(*child),
{
    match &child.content {
        ChildContent::Zone(z) => Ok(z),
        other => Err(fail_child(other)),
    }
}

/// The children of a footprint; none where it has no definition.
pub open spec fn children_of(fp: FootprintInstance) -> Seq<ChildItem> {
    match fp.definition {
        Some(definition) => definition.items@,
        None => Seq::empty(),
    }
}

/// The text of a field, where it has one.
pub open spec fn text_of_field(field: Option<Field>) -> Option<String> {
    match field {
        Some(f) => match f.text {
            Some(board_text) => match board_text.text {
                Some(t) => Some(t.text),
                None => None,
            },
            None => None,
        },
        None => None,
    }
}

pub fn field_text(field: &Option<Field>) -> (r: Option<&String>)
    ensures
        match r {
            Some(t) => text_of_field(*field) == Some(*t),
            None => text_of_field(*field) is None,
        },
{
    match field {
        Some(f) => match &f.text {
            Some(board_text) => match &board_text.text {
                Some(t) => Some(&t.text),
                None => None,
            },
            None => None,
        },
        None => None,
    }
}

pub fn copy_field_text(field: &Option<Field>) -> (r: String)
    ensures
        r@ == text_or_empty(text_of_field(*field)),
{
    match field_text(field) {
        Some(t) => t.clone(),
        None => String::new(),
    }
}

/// A net's name, empty where there is no net.
pub open spec fn name_of_net(net: Option<Net>) -> Seq<char> {
    match net {
        Some(n) => n.name@,
        None => Seq::empty(),
    }
}

pub fn copy_net_name(net: &Option<Net>) -> (r: String)
    ensures
        r@ == name_of_net(*net),
{
    match net {
        Some(n) => n.name.clone(),
        None => String::new(),
    }
}

pub open spec fn net_if_any(net: Option<Net>) -> Option<Seq<char>> {
    match net {
        Some(n) => Some(n.name@),
        None => None,
    }
}

pub fn copy_net_if_any(net: &Option<Net>) -> (r: Option<String>)
    ensures
        r.deep_view() == net_if_any(*net),
{
    match net {
        Some(n) => Some(n.name.clone()),
        None => None,
    }
}

/// A net's code, 0 where there is none.
pub open spec fn code_of_net(net: Option<Net>) -> i32 {
    match net {
        Some(n) => match n.code {
            Some(code) => code,
            None => 0,
        },
        None => 0,
    }
}

pub fn net_id(net: &Option<Net>) -> (r: i32)
    ensures
        r == code_of_net(*net),
{
    match net {
        Some(n) => match n.code {
            Some(code) => code,
            None => 0,
        },
        None => 0,
    }
}

// Footprints.

/// The identifier of a footprint's library entry.
pub open spec fn library_id(fp: FootprintInstance) -> Seq<char> {
    match fp.definition {
        Some(definition) => match definition.id {
            Some(id) => id.library_nickname@ + ":"@ + id.entry_name@,
            None => Seq::empty(),
        },
        None => Seq::empty(),
    }
}

/// A footprint as it is listed.
pub open spec fn footprint_entry(fp: FootprintInstance) -> FootprintView {
    FootprintView {
        reference: text_or_empty(text_of_field(fp.reference_field)),
        value: text_or_empty(text_of_field(fp.value_field)),
        footprint: library_id(fp),
        position: vector_or_origin(fp.position),
        rotation: match fp.orientation {
            Some(angle) => angle,
            None => zero_spec(),
        },
        layer: layer_name(fp.layer),
    }
}

/// The footprint that an item holds, if it holds one.
pub open spec fn listed_footprint(item: Item) -> Seq<FootprintView> {
    optional(
        match as_footprint(item) {
            Ok(fp) => Some(footprint_entry(fp)),
            Err(_) => None,
        },
    )
}

fn list_footprint(fp: &FootprintInstance) -> (r: IpcFootprint)
    ensures
        r.deep_view() == footprint_entry(*fp),
{
    let footprint = match &fp.definition {
        Some(definition) => match &definition.id {
            Some(id) => {
                let mut out = id.library_nickname.clone();
                out.append(":");
                out.append(id.entry_name.as_str());
                out
            },
            None => String::new(),
        },
        None => String::new(),
    };
    IpcFootprint {
        reference: copy_field_text(&fp.reference_field),
        value: copy_field_text(&fp.value_field),
        footprint,
        position: or_origin(fp.position),
        rotation: match fp.orientation {
            Some(angle) => angle,
            None => zero(),
        },
        layer: layer_enum_to_name(fp.layer).to_owned(),
    }
}

/// The footprints of a document.
pub open spec fn footprints_in<'a>(
    document: DocumentSpecifier,
    replies: Seq<Reply>,
    at: int,
) -> Progress<'a, Seq<FootprintView>> {
    judged(
        items_in(document, ItemKind::Footprint, replies, at),
        |items: Seq<Item>| Ok(gather(items, |i: Item| listed_footprint(i))),
    )
}

/// The footprints of the first open board.
pub open spec fn board_footprints<'a>(replies: Seq<Reply>, at: int) -> Progress<
    'a,
    Seq<FootprintView>,
> {
    followed(
        board_document(replies, at),
        |document: DocumentSpecifier, used: int| footprints_in(document, replies, used),
    )
}

/// The first footprint at or after `i` with a reference.
pub open spec fn footprint_named_from(
    footprints: Seq<FootprintView>,
    reference: Seq<char>,
    i: int,
) -> Option<FootprintView>
    decreases footprints.len() - i,
{
    if i < 0 || i >= footprints.len() {
        None
    } else if footprints[i].reference == reference {
        Some(footprints[i])
    } else {
        footprint_named_from(footprints, reference, i + 1)
    }
}

/// Takes the first footprint with a reference out of a list.
pub fn take_named(footprints: Vec<IpcFootprint>, reference: &str) -> (r: Option<IpcFootprint>)
    ensures
        r.deep_view() == footprint_named_from(footprints.deep_view(), reference@, 0),
{
    let ghost all = footprints.deep_view();
    let mut rest = footprints;
    let mut i: usize = 0;
    while i < rest.len()
        invariant
            i <= rest@.len(),
            all == footprints.deep_view(),
            all == rest.deep_view(),
            footprint_named_from(all, reference@, 0) == footprint_named_from(
                all,
                reference@,
                i as int,
            ),
        decreases rest@.len() - i,
    {
        assert(all[i as int] == rest@[i as int].deep_view());
        if text::same(rest[i].reference.as_str(), reference) {
            let found = rest.swap_remove(i);
            return Some(found);
        }
        i += 1;
    }
    None
}

/// A footprint that an item holds with its identifier, where its reference is the one asked
/// for. A footprint without an identifier has the empty one.
pub open spec fn identified_if_named(item: Item, reference: Seq<char>) -> Option<
    IdentifiedFootprintView,
> {
    match as_footprint(item) {
        Ok(fp) => if footprint_entry(fp).reference == reference {
            Some(
                IdentifiedFootprintView {
                    footprint: footprint_entry(fp),
                    kiid: text_or_empty(fp.id),
                },
            )
        } else {
            None
        },
        Err(_) => None,
    }
}

/// The first such footprint at or after `i`.
pub open spec fn identified_from(items: Seq<Item>, reference: Seq<char>, i: int) -> Option<
    IdentifiedFootprintView,
>
    decreases items.len() - i,
{
    if i < 0 || i >= items.len() {
        None
    } else {
        match identified_if_named(items[i], reference) {
            Some(found) => Some(found),
            None => identified_from(items, reference, i + 1),
        }
    }
}

/// The first footprint of the board with a reference, and its identifier.
pub open spec fn named_footprint<'a>(
    reference: Seq<char>,
    replies: Seq<Reply>,
    at: int,
) -> Progress<'a, Option<IdentifiedFootprintView>> {
    judged(
        items_of(ItemKind::Footprint, replies, at),
        |items: Seq<Item>| Ok(identified_from(items, reference, 0)),
    )
}

fn first_named(items: &Vec<&Item>, reference: &str) -> (r: Option<IdentifiedFootprint>)
    ensures
        r.deep_view() == identified_from(items.deep_view(), reference@, 0),
{
    let ghost all = items.deep_view();
    let mut i: usize = 0;
    while i < items.len()
        invariant
            i <= items@.len(),
            all == items.deep_view(),
            identified_from(all, reference@, 0) == identified_from(all, reference@, i as int),
        decreases items@.len() - i,
    {
        assert(all[i as int] == *items@[i as int]);
        if let Ok(fp) = footprint_of(items[i]) {
            let footprint = list_footprint(fp);
            if text::same(footprint.reference.as_str(), reference) {
                return Some(IdentifiedFootprint { footprint, kiid: copy_or_empty(&fp.id) });
            }
        }
        i += 1;
    }
    None
}

/// The footprint that a look-up finds is the one that the board lists first under the
/// reference.
pub proof fn the_footprint_found_is_the_first_listed(items: Seq<Item>, reference: Seq<char>)
    ensures
        footprint_named_from(
            gather(items, |i: Item| listed_footprint(i)),
            reference,
            0,
        ) == (match identified_from(items, reference, 0) {
            Some(found) => Some(found.footprint),
            None => None,
        }),
{
    lemma_found_is_listed(items, reference, 0);
    assert(items.take(0) == Seq::<Item>::empty());
}

proof fn lemma_found_is_listed(items: Seq<Item>, reference: Seq<char>, i: int)
    requires
        0 <= i <= items.len(),
    ensures
        ({
            let listed = |k: Item| listed_footprint(k);
            footprint_named_from(
                gather(items, listed),
                reference,
                gather(items.take(i), listed).len() as int,
            ) == (match identified_from(items, reference, i) {
                Some(found) => Some(found.footprint),
                None => None,
            })
        }),
    decreases items.len() - i,
{
    let listed = |k: Item| listed_footprint(k);
    if i == items.len() {
        assert(items.take(i) == items);
    } else {
        lemma_found_is_listed(items, reference, i + 1);
        lemma_gather_step(items, listed, i);
        lemma_gather_prefix(items, listed, i + 1);
        let here = gather(items.take(i), listed);
        if let Ok(fp) = as_footprint(items[i]) {
            assert(gather(items.take(i + 1), listed)[here.len() as int] == footprint_entry(fp));
        }
    }
}

/// The identifier of the footprint that an item holds, where its reference is the one asked
/// for and it has an identifier.
pub open spec fn kiid_if_named<'a>(item: Item, reference: Seq<char>) -> Option<Kiid<'a>> {
    match as_footprint(item) {
        Ok(fp) => if text_or_empty(text_of_field(fp.reference_field)) == reference {
            match fp.id {
                Some(id) => Some(Kiid { value: &id }),
                None => None,
            }
        } else {
            None
        },
        Err(_) => None,
    }
}

/// The first such identifier at or after `i`.
pub open spec fn kiid_from<'a>(items: Seq<Item>, reference: Seq<char>, i: int) -> Option<Kiid<'a>>
    decreases items.len() - i,
{
    if i < 0 || i >= items.len() {
        None
    } else {
        match kiid_if_named(items[i], reference) {
            Some(id) => Some(id),
            None => kiid_from(items, reference, i + 1),
        }
    }
}

/// The first identifier of a footprint with a reference among some items.
pub fn first_kiid<'a>(items: &Vec<&'a Item>, reference: &str) -> (r: Option<Kiid<'a>>)
    ensures
        r == kiid_from(items.deep_view(), reference@, 0),
{
    let ghost all = items.deep_view();
    let mut i: usize = 0;
    while i < items.len()
        invariant
            i <= items@.len(),
            all == items.deep_view(),
            kiid_from(all, reference@, 0) == kiid_from(all, reference@, i as int),
        decreases items@.len() - i,
    {
        assert(all[i as int] == *items@[i as int]);
        if let Ok(fp) = footprint_of(items[i]) {
            let named = match field_text(&fp.reference_field) {
                Some(t) => text::same(t.as_str(), reference),
                None => reference.is_empty(),
            };
            proof {
                if reference@.len() == 0 {
                    assert(reference@ == Seq::<char>::empty());
                }
            }
            if named {
                if let Some(id) = &fp.id {
                    return Some(Kiid { value: id });
                }
            }
        }
        i += 1;
    }
    None
}

pub open spec fn footprint_missing_text(reference: Seq<char>) -> Seq<char> {
    "Footprint '"@ + reference + "' not found on board"@
}

/// The identifier of the footprint with a reference.
pub open spec fn footprint_kiid<'a>(
    reference: Seq<char>,
    replies: Seq<Reply>,
    at: int,
) -> Progress<'a, Kiid<'a>> {
    judged(
        items_of(ItemKind::Footprint, replies, at),
        |items: Seq<Item>|
            match kiid_from(items, reference, 0) {
                Some(id) => Ok(id),
                None => Err(plain(footprint_missing_text(reference))),
            },
    )
}

impl KiCadIpcClient {
    /// The footprints of a document.
    pub fn list_footprints_in<'a>(
        &self,
        document: &'a DocumentSpecifier,
        replies: &'a Vec<Reply>,
        at: usize,
    ) -> (r: Step<'a, Vec<IpcFootprint>>)
        ensures
            r.deep_view() == footprints_in(*document, replies@, at as int),
    {
        let (items, used) = match self.get_items_in(document, ItemKind::Footprint, replies, at) {
            Step::Next(task) => {
                return Step::Next(task);
            },
            Step::Done(Err(error), used) => {
                return Step::Done(Err(error), used);
            },
            Step::Done(Ok(items), used) => (items, used),
        };
        let ghost all = items.deep_view();
        let ghost pick = |i: Item| listed_footprint(i);
        let mut out: Vec<IpcFootprint> = Vec::new();
        let mut i: usize = 0;
        while i < items.len()
            invariant
                i <= items@.len(),
                all == items.deep_view(),
                pick == (|i: Item| listed_footprint(i)),
                out.deep_view() == gather(all.take(i as int), pick),
            decreases items@.len() - i,
        {
            proof {
                assert(all[i as int] == *items@[i as int]);
                lemma_gather_step(all, pick, i as int);
            }
            if let Ok(fp) = footprint_of(items[i]) {
                let ghost before = out.deep_view();
                let entry = list_footprint(fp);
                out.push(entry);
                assert(out.deep_view() == before.push(entry.deep_view()));
            }
            i += 1;
        }
        assert(all.take(all.len() as int) == all);
        Step::Done(Ok(out), used)
    }

    /// The footprints of the board.
    pub fn list_footprints<'a>(&self, replies: &'a Vec<Reply>, at: usize) -> (r: Step<
        'a,
        Vec<IpcFootprint>,
    >)
        ensures
            r.deep_view() == board_footprints(replies@, at as int),
    {
        match self.get_board_document(replies, at) {
            Step::Next(task) => Step::Next(task),
            Step::Done(Err(error), used) => Step::Done(Err(error), used),
            Step::Done(Ok(document), used) => self.list_footprints_in(document, replies, used),
        }
    }

    /// The first footprint with a reference and its identifier, where there is such a footprint.
    pub fn get_footprint<'a>(&self, reference: &str, replies: &'a Vec<Reply>, at: usize) -> (r:
        Step<'a, Option<IdentifiedFootprint>>)
        ensures
            r.deep_view() == named_footprint(reference@, replies@, at as int),
    {
        match self.get_items(ItemKind::Footprint, replies, at) {
            Step::Next(task) => Step::Next(task),
            Step::Done(Err(error), used) => Step::Done(Err(error), used),
            Step::Done(Ok(items), used) => Step::Done(Ok(first_named(&items, reference)), used),
        }
    }

    /// The identifier of the footprint with a reference.
    pub fn find_footprint_kiid<'a>(
        &self,
        reference: &str,
        replies: &'a Vec<Reply>,
        at: usize,
    ) -> (r: Step<'a, Kiid<'a>>)
        ensures
            r.deep_view() == footprint_kiid(reference@, replies@, at as int),
    {
        let (items, used) = match self.get_items(ItemKind::Footprint, replies, at) {
            Step::Next(task) => {
                return Step::Next(task);
            },
            Step::Done(Err(error), used) => {
                return Step::Done(Err(error), used);
            },
            Step::Done(Ok(items), used) => (items, used),
        };
        if let Some(id) = first_kiid(&items, reference) {
            return Step::Done(Ok(id), used);
        }
        let mut message = "Footprint '".to_owned();
        message.append(reference);
        message.append("' not found on board");
        Step::Done(Err(IpcError::new(message)), used)
    }
}

} // verus!
