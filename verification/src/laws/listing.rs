//! What is listed of a board is what KiCad sent.

use crate::board::{FootprintView, LayerView, NetView, TrackView, ViaView};
use crate::error::CauseView;
use crate::gather::{gather, try_gather};
use crate::items::{
    board_footprints, footprint_kiid, identified_from, kiid_from, listed_footprint,
    named_footprint, text_of_field,
};
use crate::layers::{enabled_layer, layer_name, without_prefix};
use crate::messages::{
    BoardLayer, BoardText, Box2, DocumentSpecifier, EnabledLayer, Field, Footprint, Item,
    ItemContent, Net, PadStack, Response, Text, Vector2,
};
use crate::session::{
    board_extents, board_layers, board_nets, net_code, net_entry, net_named_from,
};
use crate::step::{Progress, Reply};
use crate::text::{begins_with, text_or_empty};
use crate::tracks::{board_tracks, board_vias, listed_track, listed_via};
use vstd::prelude::*;

verus! {

// Lists.

/// Whether there is one entry for each source, in order, and each tells of its own.
pub open spec fn lists<A, B>(
    entries: Seq<B>,
    sources: Seq<A>,
    tells: spec_fn(B, A) -> bool,
) -> bool {
    &&& entries.len() == sources.len()
    &&& forall|k: int| 0 <= k < entries.len() ==> tells(#[trigger] entries[k], sources[k])
}

/// Where what is kept gives one entry each and the rest none, the entries are those of what
/// is kept.
pub proof fn lemma_gather_lists<A, B>(
    items: Seq<A>,
    f: spec_fn(A) -> Seq<B>,
    keep: spec_fn(A) -> bool,
    tells: spec_fn(B, A) -> bool,
)
    requires
        forall|a: A| #[trigger] keep(a) ==> f(a).len() == 1 && tells(f(a)[0], a),
        forall|a: A| !#[trigger] keep(a) ==> f(a).len() == 0,
    ensures
        lists(gather(items, f), items.filter(keep), tells),
    decreases items.len(),
{
    reveal(Seq::filter);
    if items.len() > 0 {
        let head = items.drop_last();
        lemma_gather_lists(head, f, keep, tells);
        let entries = gather(head, f);
        let sources = head.filter(keep);
        assert(keep(items.last()) || !keep(items.last()));
        assert forall|k: int| 0 <= k < gather(items, f).len() implies tells(
            #[trigger] gather(items, f)[k],
            items.filter(keep)[k],
        ) by {
            if k < entries.len() {
                assert(gather(items, f)[k] == entries[k]);
                assert(items.filter(keep)[k] == sources[k]);
            }
        }
    }
}

/// Where each item gives one entry that tells of it, the entries are those of the items.
pub proof fn lemma_try_gather_lists<A, B>(
    items: Seq<A>,
    f: spec_fn(A) -> Result<Seq<B>, Seq<CauseView>>,
    tells: spec_fn(B, A) -> bool,
)
    requires
        forall|i: int|
            #![trigger items[i]]
            0 <= i < items.len() ==> (f(items[i]) matches Ok(part) ==> part.len() == 1 && tells(
                part[0],
                items[i],
            )),
    ensures
        try_gather(items, f) matches Ok(all) ==> lists(all, items, tells),
    decreases items.len(),
{
    if items.len() > 0 {
        let head = items.drop_last();
        assert forall|i: int| #![trigger head[i]] 0 <= i < head.len() implies (f(
            head[i],
        ) matches Ok(part) ==> part.len() == 1 && tells(part[0], head[i])) by {
            assert(head[i] == items[i]);
        }
        lemma_try_gather_lists(head, f, tells);
        assert(items.last() == items[items.len() - 1]);
    }
}

/// All is gathered just where nothing fails.
pub proof fn lemma_try_gather_is_ok<A, B>(
    items: Seq<A>,
    f: spec_fn(A) -> Result<Seq<B>, Seq<CauseView>>,
)
    ensures
        try_gather(items, f) is Ok <==> forall|i: int|
            0 <= i < items.len() ==> f(#[trigger] items[i]) is Ok,
    decreases items.len(),
{
    if items.len() > 0 {
        let head = items.drop_last();
        lemma_try_gather_is_ok(head, f);
        assert(items.last() == items[items.len() - 1]);
        if forall|i: int| 0 <= i < items.len() ==> f(#[trigger] items[i]) is Ok {
            assert forall|i: int| 0 <= i < head.len() implies f(#[trigger] head[i]) is Ok by {
                assert(head[i] == items[i]);
            }
        }
        if try_gather(items, f) is Ok {
            assert forall|i: int| 0 <= i < items.len() implies f(#[trigger] items[i]) is Ok by {
                if i < head.len() {
                    assert(head[i] == items[i]);
                }
            }
        }
    }
}

// Conversations.

/// Whether KiCad names its open documents at `at`, the board first.
pub open spec fn names_board(replies: Seq<Reply>, at: int, board: DocumentSpecifier) -> bool {
    &&& 0 <= at < replies.len()
    &&& replies[at] matches Reply::Payload(Response::OpenDocuments(documents))
    &&& documents@.len() > 0
    &&& documents@[0].document == board
}

/// Whether KiCad names its open documents and then sends items.
pub open spec fn sends_items(replies: Seq<Reply>, at: int, items: Seq<Item>) -> bool {
    &&& exists|board: DocumentSpecifier| names_board(replies, at, board)
    &&& at + 1 < replies.len()
    &&& replies[at + 1] matches Reply::Payload(Response::Items(sent))
    &&& sent@ == items
}

/// Whether a place is the one that was sent, or the origin where none was.
pub open spec fn is_place(place: Vector2, sent: Option<Vector2>) -> bool {
    match sent {
        Some(p) => place == p,
        None => place.x_nm == 0 && place.y_nm == 0,
    }
}

/// Whether a text is the one that was sent, or empty where none was.
pub open spec fn is_text(text: Seq<char>, sent: Option<String>) -> bool {
    match sent {
        Some(t) => text == t@,
        None => text.len() == 0,
    }
}

/// Whether a name is that of the net that was sent, or empty where none was.
pub open spec fn is_net_name(name: Seq<char>, sent: Option<Net>) -> bool {
    match sent {
        Some(net) => name == net.name@,
        None => name.len() == 0,
    }
}

/// Whether a number is that of the net that was sent, or 0 where none was.
pub open spec fn is_net_code(code: i32, sent: Option<Net>) -> bool {
    match sent {
        Some(net) => match net.code {
            Some(c) => code == c,
            None => code == 0,
        },
        None => code == 0,
    }
}

proof fn lemma_no_name(name: Option<Seq<char>>)
    ensures
        name matches Some(n) ==> (n.len() == 0 <==> n == Seq::<char>::empty()),
{
    if let Some(n) = name {
        assert(n.len() == 0 ==> n =~= Seq::<char>::empty());
    }
}

// Tracks.

/// Whether an entry tells of a track as it was sent.
pub open spec fn tells_track(entry: TrackView, item: Item) -> bool {
    &&& item.content matches ItemContent::Track(track)
    &&& is_text(entry.kiid, track.id)
    &&& is_net_name(entry.net_name, track.net)
    &&& entry.layer == layer_name(track.layer)
    &&& track.width_nm matches Some(width) ==> entry.width_nm == width
    &&& track.width_nm is None ==> entry.width_nm == 250_000
    &&& is_place(entry.start, track.start)
    &&& is_place(entry.end, track.end)
}

/// Whether an item is a track of a net and on a layer, as far as these are given.
pub open spec fn is_wanted_track(
    item: Item,
    net: Option<Seq<char>>,
    layer: Option<Seq<char>>,
) -> bool {
    match item.content {
        ItemContent::Track(track) => {
            &&& net matches Some(name) ==> is_net_name(name, track.net)
            &&& layer matches Some(name) ==> layer_name(track.layer) == name
        },
        _ => false,
    }
}

/// The tracks that are listed are those that KiCad sent, in its order, as far as they are of
/// the net and on the layer asked for: each with the identifier, net, layer, width, start and
/// end that it was sent with. What does not decode as a track is passed over.
pub proof fn tracks_are_listed_as_they_were_sent<'a>(
    net: Option<Seq<char>>,
    layer: Option<Seq<char>>,
    replies: Seq<Reply>,
    at: int,
    items: Seq<Item>,
)
    requires
        sends_items(replies, at, items),
    ensures
        board_tracks::<'a>(net, layer, replies, at) matches Progress::Done(Ok(listed), used)
            && used == at + 2 && lists(
            listed,
            items.filter(|item: Item| is_wanted_track(item, net, layer)),
            |entry: TrackView, item: Item| tells_track(entry, item),
        ),
{
    let keep = |item: Item| is_wanted_track(item, net, layer);
    let tells = |entry: TrackView, item: Item| tells_track(entry, item);
    let f = listed_track(net, layer);
    lemma_no_name(net);
    assert forall|a: Item| #[trigger] keep(a) implies f(a).len() == 1 && tells(f(a)[0], a) by {}
    assert forall|a: Item| !#[trigger] keep(a) implies f(a).len() == 0 by {}
    lemma_gather_lists(items, f, keep, tells);
}

// Vias.

/// Whether a size is that of the first copper layer of a stack, where it has one.
pub open spec fn is_copper_size(size: Option<Vector2>, stack: Option<PadStack>) -> bool {
    match stack {
        Some(s) => if s.copper_layers@.len() > 0 {
            size == s.copper_layers@[0].size
        } else {
            size is None
        },
        None => size is None,
    }
}

/// Whether a size is that of a stack's hole, where it has one.
pub open spec fn is_hole_size(size: Option<Vector2>, stack: Option<PadStack>) -> bool {
    match stack {
        Some(s) => match s.drill {
            Some(drill) => size == drill.diameter,
            None => size is None,
        },
        None => size is None,
    }
}

/// Whether names are those of layers, in order.
pub open spec fn are_layer_names(names: Seq<Seq<char>>, layers: Seq<BoardLayer>) -> bool {
    &&& names.len() == layers.len()
    &&& forall|k: int| 0 <= k < names.len() ==> #[trigger] names[k] == layer_name(layers[k])
}

/// Whether names are those of a stack's layers, in order; none where there is no stack.
pub open spec fn are_stack_layers(names: Seq<Seq<char>>, stack: Option<PadStack>) -> bool {
    match stack {
        Some(s) => are_layer_names(names, s.layers@),
        None => names.len() == 0,
    }
}

/// Whether an entry tells of a via as it was sent.
pub open spec fn tells_via(entry: ViaView, item: Item) -> bool {
    &&& item.content matches ItemContent::Via(via)
    &&& is_text(entry.kiid, via.id)
    &&& is_place(entry.position, via.position)
    &&& is_copper_size(entry.size, via.pad_stack)
    &&& is_hole_size(entry.drill, via.pad_stack)
    &&& are_stack_layers(entry.layers, via.pad_stack)
    &&& is_net_name(entry.net_name, via.net)
    &&& is_net_code(entry.net_id, via.net)
}

/// Whether an item is a via of a net, as far as one is given.
pub open spec fn is_wanted_via(item: Item, net: Option<Seq<char>>) -> bool {
    match item.content {
        ItemContent::Via(via) => net matches Some(name) ==> is_net_name(name, via.net),
        _ => false,
    }
}

/// The vias that are listed are those that KiCad sent, in its order, as far as they are of the
/// net asked for: each with the identifier, place, size, hole, layers and net that it was sent
/// with. What does not decode as a via is passed over.
pub proof fn vias_are_listed_as_they_were_sent<'a>(
    net: Option<Seq<char>>,
    replies: Seq<Reply>,
    at: int,
    items: Seq<Item>,
)
    requires
        sends_items(replies, at, items),
    ensures
        board_vias::<'a>(net, replies, at) matches Progress::Done(Ok(listed), used) && used == at
            + 2 && lists(
            listed,
            items.filter(|item: Item| is_wanted_via(item, net)),
            |entry: ViaView, item: Item| tells_via(entry, item),
        ),
{
    let keep = |item: Item| is_wanted_via(item, net);
    let tells = |entry: ViaView, item: Item| tells_via(entry, item);
    let f = listed_via(net);
    lemma_no_name(net);
    assert forall|a: Item| #[trigger] keep(a) implies f(a).len() == 1 && tells(f(a)[0], a) by {}
    assert forall|a: Item| !#[trigger] keep(a) implies f(a).len() == 0 by {}
    lemma_gather_lists(items, f, keep, tells);
}

// Footprints.

/// Whether a text is that of a field, or empty where the field has none.
pub open spec fn is_field_text(text: Seq<char>, field: Option<Field>) -> bool {
    match field {
        Some(Field { text: Some(BoardText { text: Some(Text { text: t }) }) }) => text == t@,
        _ => text.len() == 0,
    }
}

/// Whether an entry tells of a footprint as it was sent.
pub open spec fn tells_footprint(entry: FootprintView, item: Item) -> bool {
    &&& item.content matches ItemContent::Footprint(fp)
    &&& is_field_text(entry.reference, fp.reference_field)
    &&& is_field_text(entry.value, fp.value_field)
    &&& match fp.definition {
        Some(Footprint { id: Some(id), .. }) => entry.footprint == id.library_nickname@.push(':')
            + id.entry_name@,
        _ => entry.footprint.len() == 0,
    }
    &&& is_place(entry.position, fp.position)
    &&& fp.orientation matches Some(angle) ==> entry.rotation == angle
    &&& fp.orientation is None ==> entry.rotation.bits == 0
    &&& entry.layer == layer_name(fp.layer)
}

proof fn lemma_tells_footprint(item: Item)
    ensures
        item.content is Footprint ==> listed_footprint(item).len() == 1 && tells_footprint(
            listed_footprint(item)[0],
            item,
        ),
        !(item.content is Footprint) ==> listed_footprint(item).len() == 0,
{
    reveal_strlit(":");
    if let ItemContent::Footprint(fp) = item.content {
        if let Some(Footprint { id: Some(id), .. }) = fp.definition {
            assert(id.library_nickname@ + ":"@ + id.entry_name@ =~= id.library_nickname@.push(':')
                + id.entry_name@);
        }
    }
}

/// The footprints that are listed are those that KiCad sent, in its order, each with the
/// reference, value, library entry, place, angle and layer that it was sent with. What does
/// not decode as a footprint is passed over.
pub proof fn footprints_are_listed_as_they_were_sent<'a>(
    replies: Seq<Reply>,
    at: int,
    items: Seq<Item>,
)
    requires
        sends_items(replies, at, items),
    ensures
        board_footprints::<'a>(replies, at) matches Progress::Done(Ok(listed), used) && used == at
            + 2 && lists(
            listed,
            items.filter(|item: Item| item.content is Footprint),
            |entry: FootprintView, item: Item| tells_footprint(entry, item),
        ),
{
    let keep = |item: Item| item.content is Footprint;
    let tells = |entry: FootprintView, item: Item| tells_footprint(entry, item);
    let f = |i: Item| listed_footprint(i);
    assert forall|a: Item| #[trigger] keep(a) implies f(a).len() == 1 && tells(f(a)[0], a) by {
        lemma_tells_footprint(a);
    }
    assert forall|a: Item| !#[trigger] keep(a) implies f(a).len() == 0 by {
        lemma_tells_footprint(a);
    }
    lemma_gather_lists(items, f, keep, tells);
}

/// Whether an item is a footprint with a reference.
pub open spec fn bears_reference(item: Item, reference: Seq<char>) -> bool {
    match item.content {
        ItemContent::Footprint(fp) => is_field_text(reference, fp.reference_field),
        _ => false,
    }
}

/// Whether `i` is the place of the first footprint with a reference.
pub open spec fn is_first_bearing(items: Seq<Item>, reference: Seq<char>, i: int) -> bool {
    &&& 0 <= i < items.len()
    &&& bears_reference(items[i], reference)
    &&& forall|j: int| 0 <= j < i ==> !bears_reference(#[trigger] items[j], reference)
}

proof fn lemma_identified_from(items: Seq<Item>, reference: Seq<char>, i: int)
    requires
        0 <= i <= items.len(),
        forall|j: int| 0 <= j < i ==> !bears_reference(#[trigger] items[j], reference),
    ensures
        match identified_from(items, reference, i) {
            Some(found) => exists|k: int|
                #[trigger] is_first_bearing(items, reference, k)
                    && tells_footprint(found.footprint, items[k]) && (
                items[k].content matches ItemContent::Footprint(fp) && is_text(found.kiid, fp.id)),
            None => forall|j: int|
                0 <= j < items.len() ==> !bears_reference(#[trigger] items[j], reference),
        },
    decreases items.len() - i,
{
    if i < items.len() {
        lemma_tells_footprint(items[i]);
        lemma_no_name(Some(reference));
        if bears_reference(items[i], reference) {
            assert(is_first_bearing(items, reference, i));
        } else {
            lemma_identified_from(items, reference, i + 1);
        }
    }
}

/// A footprint that is looked up by its reference is the first one with that reference that
/// KiCad sent, told as it was sent and with its own identifier; none is found only where none
/// was sent.
pub proof fn a_footprint_is_found_as_it_was_sent<'a>(
    reference: Seq<char>,
    replies: Seq<Reply>,
    at: int,
    items: Seq<Item>,
)
    requires
        sends_items(replies, at, items),
    ensures
        named_footprint::<'a>(reference, replies, at) matches Progress::Done(Ok(result), used)
            && used == at + 2 && match result {
            Some(found) => exists|k: int|
                #[trigger] is_first_bearing(items, reference, k)
                    && tells_footprint(found.footprint, items[k]) && (
                items[k].content matches ItemContent::Footprint(fp) && is_text(found.kiid, fp.id)),
            None => forall|j: int|
                0 <= j < items.len() ==> !bears_reference(#[trigger] items[j], reference),
        },
{
    lemma_identified_from(items, reference, 0);
}

/// Whether an item is a footprint with a reference and an identifier.
pub open spec fn is_identified(item: Item, reference: Seq<char>) -> bool {
    bears_reference(item, reference) && match item.content {
        ItemContent::Footprint(fp) => fp.id is Some,
        _ => false,
    }
}

/// Whether `i` is the place of the first footprint with a reference and an identifier.
pub open spec fn is_first_identified(items: Seq<Item>, reference: Seq<char>, i: int) -> bool {
    &&& 0 <= i < items.len()
    &&& is_identified(items[i], reference)
    &&& forall|j: int| 0 <= j < i ==> !is_identified(#[trigger] items[j], reference)
}

proof fn lemma_kiid_from(items: Seq<Item>, reference: Seq<char>, i: int)
    requires
        0 <= i <= items.len(),
        forall|j: int| 0 <= j < i ==> !is_identified(#[trigger] items[j], reference),
    ensures
        match kiid_from(items, reference, i) {
            Some(id) => exists|k: int|
                #[trigger] is_first_identified(items, reference, k) && (
                items[k].content matches ItemContent::Footprint(fp) && fp.id == Some(*id.value)),
            None => forall|j: int|
                0 <= j < items.len() ==> !is_identified(#[trigger] items[j], reference),
        },
    decreases items.len() - i,
{
    if i < items.len() {
        lemma_no_name(Some(reference));
        if let ItemContent::Footprint(fp) = items[i].content {
            assert(text_or_empty(text_of_field(fp.reference_field)) == reference
                <==> is_field_text(reference, fp.reference_field));
        }
        if is_identified(items[i], reference) {
            assert(is_first_identified(items, reference, i));
        } else {
            lemma_kiid_from(items, reference, i + 1);
        }
    }
}

/// The identifier of a footprint is that of the first one with the reference that KiCad sent
/// with an identifier; the look-up fails just where there is none.
pub proof fn a_footprint_has_its_own_identifier<'a>(
    reference: Seq<char>,
    replies: Seq<Reply>,
    at: int,
    items: Seq<Item>,
)
    requires
        sends_items(replies, at, items),
    ensures
        footprint_kiid::<'a>(reference, replies, at) matches Progress::Done(result, used) && used
            == at + 2 && match result {
            Ok(id) => exists|k: int|
                #[trigger] is_first_identified(items, reference, k) && (
                items[k].content matches ItemContent::Footprint(fp) && fp.id == Some(*id.value)),
            Err(_) => forall|j: int|
                0 <= j < items.len() ==> !is_identified(#[trigger] items[j], reference),
        },
{
    lemma_kiid_from(items, reference, 0);
}

// Nets, layers and extents.

/// The nets that are listed are those that KiCad sent, in its order, each with its name and
/// its number, which is 0 where none was sent.
pub proof fn nets_are_listed_as_they_were_sent<'a>(
    replies: Seq<Reply>,
    at: int,
    board: DocumentSpecifier,
    nets: Vec<Net>,
)
    requires
        names_board(replies, at, board),
        at + 1 < replies.len(),
        replies[at + 1] == Reply::Payload(Response::Nets(nets)),
    ensures
        board_nets::<'a>(replies, at) matches Progress::Done(Ok(listed), used) && used == at + 2
            && lists(
            listed,
            nets@,
            |entry: NetView, net: Net|
                entry.name == net.name@ && is_net_code(entry.netcode, Some(net)),
        ),
{
}

/// Whether `i` is the place of the first net of a name.
pub open spec fn is_first_net(nets: Seq<Net>, name: Seq<char>, i: int) -> bool {
    &&& 0 <= i < nets.len()
    &&& nets[i].name@ == name
    &&& forall|j: int| 0 <= j < i ==> (#[trigger] nets[j]).name@ != name
}

spec fn is_first_listed(nets: Seq<NetView>, name: Seq<char>, i: int) -> bool {
    &&& 0 <= i < nets.len()
    &&& nets[i].name == name
    &&& forall|j: int| 0 <= j < i ==> (#[trigger] nets[j]).name != name
}

proof fn lemma_net_named(nets: Seq<NetView>, name: Seq<char>, i: int)
    requires
        0 <= i <= nets.len(),
        forall|j: int| 0 <= j < i ==> (#[trigger] nets[j]).name != name,
    ensures
        match net_named_from(nets, name, i) {
            Some(net) => exists|k: int|
                #[trigger] is_first_listed(nets, name, k) && nets[k] == net,
            None => forall|j: int| 0 <= j < nets.len() ==> (#[trigger] nets[j]).name != name,
        },
    decreases nets.len() - i,
{
    if i < nets.len() {
        if nets[i].name == name {
            assert(is_first_listed(nets, name, i));
        } else {
            lemma_net_named(nets, name, i + 1);
        }
    }
}

/// The number of a net is that of the first net of that name that KiCad sent; the look-up
/// fails just where no net has the name.
pub proof fn a_net_has_its_own_number<'a>(
    name: Seq<char>,
    replies: Seq<Reply>,
    at: int,
    board: DocumentSpecifier,
    nets: Vec<Net>,
)
    requires
        names_board(replies, at, board),
        at + 1 < replies.len(),
        replies[at + 1] == Reply::Payload(Response::Nets(nets)),
    ensures
        net_code::<'a>(name, replies, at) matches Progress::Done(result, used) && used == at + 2
            && match result {
            Ok(code) => exists|k: int|
                #[trigger] is_first_net(nets@, name, k) && is_net_code(
                    code,
                    Some(nets@[k]),
                ),
            Err(_) => forall|j: int| 0 <= j < nets@.len() ==> (#[trigger] nets@[j]).name@ != name,
        },
{
    let listed = nets@.map_values(|n: Net| net_entry(n));
    lemma_net_named(listed, name, 0);
    if let Some(net) = net_named_from(listed, name, 0) {
        let k = choose|k: int|
            #[trigger] is_first_listed(listed, name, k) && listed[k] == net;
        assert forall|j: int| 0 <= j < k implies (#[trigger] nets@[j]).name@ != name by {
            assert(listed[j].name != name);
        }
        assert(is_first_net(nets@, name, k));
    } else {
        assert forall|j: int| 0 <= j < nets@.len() implies (#[trigger] nets@[j]).name@ != name by {
            assert(listed[j].name != name);
        }
    }
}

/// Whether a text starts with the prefix of wire names.
pub open spec fn is_prefixed(text: Seq<char>) -> bool {
    text.len() >= 3 && text[0] == 'B' && text[1] == 'L' && text[2] == '_'
}

/// Whether a name is a text with points for underscores.
pub open spec fn is_dotted(name: Seq<char>, text: Seq<char>) -> bool {
    &&& name.len() == text.len()
    &&& forall|k: int|
        0 <= k < text.len() ==> #[trigger] name[k] == (if text[k] == '_' {
            '.'
        } else {
            text[k]
        })
}

proof fn lemma_prefix(wire: Seq<char>)
    ensures
        begins_with(wire, "BL_"@) <==> is_prefixed(wire),
{
    reveal_strlit("BL_");
    if is_prefixed(wire) {
        assert(wire.take(3) =~= "BL_"@);
    }
    if begins_with(wire, "BL_"@) {
        assert(wire.take(3)[0] == 'B' && wire.take(3)[1] == 'L' && wire.take(3)[2] == '_');
    }
}

/// A layer whose wire name has no prefix is listed under that name with points for
/// underscores; a prefix in front of a wire name changes nothing.
pub proof fn a_wire_prefix_is_dropped(plain: EnabledLayer, prefixed: EnabledLayer)
    ensures
        !is_prefixed(plain.wire_name@) ==> is_dotted(
            enabled_layer(plain).name,
            plain.wire_name@,
        ),
        prefixed.wire_name@ == seq!['B', 'L', '_'] + plain.wire_name@ ==> enabled_layer(
            prefixed,
        ).name == enabled_layer(plain).name,
{
    lemma_prefix(plain.wire_name@);
    lemma_prefix(prefixed.wire_name@);
    if prefixed.wire_name@ == seq!['B', 'L', '_'] + plain.wire_name@ {
        assert(prefixed.wire_name@.skip(3) =~= plain.wire_name@);
    }
}

/// The layers that are listed are those that KiCad has enabled, in its order, each with its
/// number and under its wire name without prefixes and with points for underscores.
pub proof fn layers_are_listed_as_they_were_sent<'a>(
    replies: Seq<Reply>,
    at: int,
    board: DocumentSpecifier,
    layers: Vec<EnabledLayer>,
)
    requires
        names_board(replies, at, board),
        at + 1 < replies.len(),
        replies[at + 1] == Reply::Payload(Response::EnabledLayers(layers)),
    ensures
        board_layers::<'a>(replies, at) matches Progress::Done(Ok(listed), used) && used == at + 2
            && lists(
            listed,
            layers@,
            |entry: LayerView, layer: EnabledLayer|
                {
                    let wire = layer.wire_name@;
                    &&& entry.id == layer.id
                    &&& !is_prefixed(wire) ==> is_dotted(entry.name, wire)
                    &&& is_prefixed(wire) && !is_prefixed(wire.skip(3)) ==> is_dotted(
                        entry.name,
                        wire.skip(3),
                    )
                    &&& entry.kind.len() == 0
                },
        ),
{
    let listed = layers@.map_values(|l: EnabledLayer| enabled_layer(l));
    assert forall|k: int| 0 <= k < listed.len() implies {
        let wire = layers@[k].wire_name@;
        &&& !is_prefixed(wire) ==> is_dotted((#[trigger] listed[k]).name, wire)
        &&& is_prefixed(wire) && !is_prefixed(wire.skip(3)) ==> is_dotted(
            listed[k].name,
            wire.skip(3),
        )
    } by {
        lemma_prefix(layers@[k].wire_name@);
        lemma_prefix(layers@[k].wire_name@.skip(3));
        reveal_with_fuel(without_prefix, 3);
    }
}

/// The extents of a board are those of the first box that KiCad sent.
pub proof fn extents_are_those_that_were_sent<'a>(
    replies: Seq<Reply>,
    at: int,
    board: DocumentSpecifier,
    boxes: Vec<Box2>,
)
    requires
        names_board(replies, at, board),
        at + 1 < replies.len(),
        replies[at + 1] == Reply::Payload(Response::BoundingBoxes(boxes)),
    ensures
        board_extents::<'a>(replies, at) matches Progress::Done(result, used) && used == at + 2
            && match result {
            Ok(extents) => boxes@.len() > 0 && is_place(extents.min, boxes@[0].position)
                && is_place(extents.size, boxes@[0].size),
            Err(_) => boxes@.len() == 0,
        },
{
}

} // verus!
