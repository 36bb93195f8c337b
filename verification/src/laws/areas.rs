//! Rule areas and identities are told as they were sent.

use crate::board::{IdentityView, RuleAreaView};
use crate::gather::{gather, try_gather};
use crate::identity::{
    arc_identity, board_identities, footprint_identity, pad_identity, reference_if_any,
    track_identity, via_identity,
};
use crate::items::children_of;
use crate::laws::copper::{
    are_optional_points, children_in, has_suffix, is_pad_child, lemma_suffix,
    lemma_try_gather_filters, lemma_try_gather_flattens, outlines_are_told_as_they_were_sent,
};
use crate::laws::listing::{
    are_layer_names, is_field_text, is_text, lemma_gather_lists, lemma_try_gather_is_ok, lists,
    sends_items,
};
use crate::layers::{layer_name, layer_names};
use crate::messages::{
    ChildContent, ChildItem, Field, FootprintInstance, Item, ItemContent, Net, Zone, ZoneSettings,
};
use crate::step::{Progress, Reply};
use crate::zones::{board_rule_area, child_rule_area, footprint_rule_areas, rule_areas};
use vstd::prelude::*;

verus! {

// Rule areas.

/// Where each item gives the entries of its own sources, all entries are those of all sources.
proof fn lemma_gather_flattens<A, B, C>(
    items: Seq<A>,
    f: spec_fn(A) -> Seq<B>,
    sources: spec_fn(A) -> Seq<C>,
    tells: spec_fn(B, C) -> bool,
)
    requires
        forall|a: A| lists(#[trigger] f(a), sources(a), tells),
    ensures
        lists(gather(items, f), items.flat_map(sources), tells),
    decreases items.len(),
{
    if items.len() == 0 {
        assert(items.map_values(sources) =~= Seq::<Seq<C>>::empty());
    } else {
        let head = items.drop_last();
        lemma_gather_flattens(head, f, sources, tells);
        assert(lists(f(items.last()), sources(items.last()), tells));
        assert(items.map_values(sources) =~= head.map_values(sources).push(sources(items.last())));
        head.map_values(sources).lemma_flatten_push(sources(items.last()));
    }
}

/// Whether a zone is a rule area on the layer asked for, where one is.
pub open spec fn is_wanted_area(zone: Zone, layer: Option<Seq<char>>) -> bool {
    &&& zone.settings matches Some(ZoneSettings::RuleArea(_))
    &&& layer matches Some(wanted) ==> exists|k: int|
        0 <= k < zone.layers@.len() && layer_name(#[trigger] zone.layers@[k]) == wanted
}

/// Whether an entry tells of a rule area as it was sent: its identifier, name, layers and
/// outlines, and what it keeps out.
pub open spec fn tells_area(entry: RuleAreaView, zone: Zone) -> bool {
    &&& zone.settings matches Some(ZoneSettings::RuleArea(settings))
    &&& is_text(entry.kiid, zone.id)
    &&& entry.name == zone.name@
    &&& are_layer_names(entry.layers, zone.layers@)
    &&& are_optional_points(entry.bounds, zone.outline)
    &&& entry.keepout_copper == settings.keepout_copper
    &&& entry.keepout_vias == settings.keepout_vias
    &&& entry.keepout_tracks == settings.keepout_tracks
    &&& entry.keepout_pads == settings.keepout_pads
    &&& entry.keepout_footprints == settings.keepout_footprints
}

/// Whether an entry tells of a rule area of the board.
pub open spec fn tells_board_area(entry: RuleAreaView, item: Item) -> bool {
    &&& item.content matches ItemContent::Zone(zone)
    &&& tells_area(entry, zone)
    &&& entry.owner == "board"@
    &&& entry.footprint_kiid is None && entry.footprint_reference is None
}

/// Whether a reference is that of a field, and none where that is empty.
pub open spec fn is_reference(reference: Option<Seq<char>>, field: Option<Field>) -> bool {
    match reference {
        Some(r) => r.len() > 0 && is_field_text(r, field),
        None => is_field_text(Seq::empty(), field),
    }
}

/// Whether an entry tells of a rule area inside a footprint, with its footprint.
pub open spec fn tells_footprint_area(
    entry: RuleAreaView,
    source: (FootprintInstance, ChildItem),
) -> bool {
    &&& source.1.content matches ChildContent::Zone(zone)
    &&& tells_area(entry, zone)
    &&& entry.owner == "footprint"@
    &&& entry.footprint_kiid is Some <==> source.0.id is Some
    &&& source.0.id matches Some(id) ==> entry.footprint_kiid == Some(id@)
    &&& is_reference(entry.footprint_reference, source.0.reference_field)
}

/// Whether an item is a rule area of the board that is wanted.
pub open spec fn is_wanted_board_area(item: Item, layer: Option<Seq<char>>) -> bool {
    match item.content {
        ItemContent::Zone(zone) => is_wanted_area(zone, layer),
        _ => false,
    }
}

/// Whether a child is a rule area that is wanted.
pub open spec fn is_wanted_child_area(child: ChildItem, layer: Option<Seq<char>>) -> bool {
    has_suffix(child.type_url@, ".Zone"@) && match child.content {
        ChildContent::Zone(zone) => is_wanted_area(zone, layer),
        _ => false,
    }
}

/// The wanted rule areas inside the footprint that an item is.
pub open spec fn areas_in(item: Item, layer: Option<Seq<char>>) -> Seq<
    (FootprintInstance, ChildItem),
> {
    match item.content {
        ItemContent::Footprint(fp) => children_in(item).filter(
            |child: ChildItem| is_wanted_child_area(child, layer),
        ).map_values(|child: ChildItem| (fp, child)),
        _ => Seq::empty(),
    }
}

proof fn lemma_on_layer(zone: Zone, wanted: Seq<char>)
    ensures
        layer_names(zone.layers@).contains(wanted) <==> exists|k: int|
            0 <= k < zone.layers@.len() && layer_name(#[trigger] zone.layers@[k]) == wanted,
{
    let names = layer_names(zone.layers@);
    if names.contains(wanted) {
        let k = choose|k: int| 0 <= k < names.len() && names[k] == wanted;
        assert(layer_name(zone.layers@[k]) == wanted);
    }
    if exists|k: int|
        0 <= k < zone.layers@.len() && layer_name(#[trigger] zone.layers@[k]) == wanted {
        let k = choose|k: int|
            0 <= k < zone.layers@.len() && layer_name(#[trigger] zone.layers@[k]) == wanted;
        assert(names[k] == wanted);
    }
}

proof fn lemma_area(zone: Zone, layer: Option<Seq<char>>)
    ensures
        layer matches Some(wanted) ==> (layer_names(zone.layers@).contains(wanted) <==> exists|
            k: int,
        |
            0 <= k < zone.layers@.len() && layer_name(#[trigger] zone.layers@[k]) == wanted),
        zone.outline matches Some(set) ==> are_optional_points(
            crate::zones::set_points(set),
            Some(set),
        ),
{
    if let Some(wanted) = layer {
        lemma_on_layer(zone, wanted);
    }
    if let Some(set) = zone.outline {
        outlines_are_told_as_they_were_sent(set);
    }
}

/// Rule areas are told as they were sent: first those of the board, then those inside its
/// footprints, each in order, as far as they lie on the layer asked for.
pub proof fn rule_areas_are_told_as_they_were_sent<'a>(
    layer: Option<Seq<char>>,
    replies: Seq<Reply>,
    at: int,
    zones: Seq<Item>,
    footprints: Seq<Item>,
)
    requires
        sends_items(replies, at, zones),
        sends_items(replies, at + 2, footprints),
    ensures
        rule_areas::<'a>(layer, replies, at) matches Progress::Done(Ok(areas), used) && used == at
            + 4 && {
            let own = zones.filter(|item: Item| is_wanted_board_area(item, layer));
            let inside = footprints.flat_map(|item: Item| areas_in(item, layer));
            &&& own.len() <= areas.len()
            &&& lists(
                areas.take(own.len() as int),
                own,
                |entry: RuleAreaView, item: Item| tells_board_area(entry, item),
            )
            &&& lists(
                areas.skip(own.len() as int),
                inside,
                |entry: RuleAreaView, source: (FootprintInstance, ChildItem)|
                    tells_footprint_area(entry, source),
            )
        },
{
    let f = board_rule_area(layer);
    let keep = |item: Item| is_wanted_board_area(item, layer);
    let tells = |entry: RuleAreaView, item: Item| tells_board_area(entry, item);
    assert forall|a: Item| #[trigger] keep(a) implies f(a).len() == 1 && tells(f(a)[0], a) by {
        if let ItemContent::Zone(zone) = a.content {
            lemma_area(zone, layer);
        }
    }
    assert forall|a: Item| !#[trigger] keep(a) implies f(a).len() == 0 by {
        if let ItemContent::Zone(zone) = a.content {
            lemma_area(zone, layer);
        }
    }
    lemma_gather_lists(zones, f, keep, tells);
    let g = footprint_rule_areas(layer);
    let sources = |item: Item| areas_in(item, layer);
    let told = |entry: RuleAreaView, source: (FootprintInstance, ChildItem)|
        tells_footprint_area(entry, source);
    assert forall|a: Item| lists(#[trigger] g(a), sources(a), told) by {
        lemma_footprint_areas(a, layer);
    }
    lemma_gather_flattens(footprints, g, sources, told);
    let head = gather(zones, f);
    let tail = gather(footprints, g);
    assert((head + tail).take(head.len() as int) =~= head);
    assert((head + tail).skip(head.len() as int) =~= tail);
}

proof fn lemma_reference(field: Option<Field>)
    ensures
        is_reference(reference_if_any(field), field),
{
    if let Some(t) = crate::items::text_of_field(field) {
        assert(t@.len() == 0 ==> t@ =~= Seq::<char>::empty());
    }
}

proof fn lemma_footprint_areas(item: Item, layer: Option<Seq<char>>)
    ensures
        lists(
            footprint_rule_areas(layer)(item),
            areas_in(item, layer),
            |entry: RuleAreaView, source: (FootprintInstance, ChildItem)|
                tells_footprint_area(entry, source),
        ),
{
    if let ItemContent::Footprint(fp) = item.content {
        let f = child_rule_area(layer, fp.id.deep_view(), reference_if_any(fp.reference_field));
        let children = children_in(item);
        let keep = |child: ChildItem| is_wanted_child_area(child, layer);
        let tells = |entry: RuleAreaView, child: ChildItem|
            tells_footprint_area(entry, (fp, child));
        lemma_reference(fp.reference_field);
        assert(children == children_of(fp));
        assert forall|a: ChildItem| #[trigger] keep(a) implies f(a).len() == 1 && tells(
            f(a)[0],
            a,
        ) by {
            lemma_suffix(a.type_url@, ".Zone"@);
            if let ChildContent::Zone(zone) = a.content {
                lemma_area(zone, layer);
            }
        }
        assert forall|a: ChildItem| !#[trigger] keep(a) implies f(a).len() == 0 by {
            lemma_suffix(a.type_url@, ".Zone"@);
            if let ChildContent::Zone(zone) = a.content {
                lemma_area(zone, layer);
            }
        }
        lemma_gather_lists(children, f, keep, tells);
    }
}

// Identities.

/// Something on the board that has an identifier.
pub enum Held {
    Item(Item),
    Pad(FootprintInstance, ChildItem),
}

/// The identifier of something on the board, empty where it has none.
pub open spec fn is_identifier(id: Seq<char>, held: Held) -> bool {
    match held {
        Held::Item(item) => match item.content {
            ItemContent::Track(track) => is_text(id, track.id),
            ItemContent::Arc(arc) => is_text(id, arc.id),
            ItemContent::Via(via) => is_text(id, via.id),
            ItemContent::Footprint(fp) => is_text(id, fp.id),
            _ => false,
        },
        Held::Pad(_, child) => match child.content {
            ChildContent::Pad(pad) => is_text(id, pad.id),
            _ => false,
        },
    }
}

/// Whether a net's name is the one that was sent, and none where none was.
pub open spec fn is_net(net: Option<Seq<char>>, sent: Option<Net>) -> bool {
    match sent {
        Some(n) => net == Some(n.name@),
        None => net is None,
    }
}

/// Whether an identity tells of something on the board as it was sent.
pub open spec fn tells_identity(entry: IdentityView, held: Held) -> bool {
    &&& is_identifier(entry.kiid, held)
    &&& match held {
        Held::Item(item) => match item.content {
            ItemContent::Track(track) => {
                &&& entry.item_type == "track"@
                &&& entry.reference is None && entry.pad is None && entry.position is None
                &&& is_net(entry.net, track.net)
                &&& entry.layer == Some(layer_name(track.layer))
            },
            ItemContent::Arc(arc) => {
                &&& entry.item_type == "track_arc"@
                &&& entry.reference is None && entry.pad is None && entry.position is None
                &&& is_net(entry.net, arc.net)
                &&& entry.layer == Some(layer_name(arc.layer))
            },
            ItemContent::Via(via) => {
                &&& entry.item_type == "via"@
                &&& entry.reference is None && entry.pad is None && entry.layer is None
                &&& is_net(entry.net, via.net)
                &&& entry.position == via.position
            },
            ItemContent::Footprint(fp) => {
                &&& entry.item_type == "footprint"@
                &&& is_reference(entry.reference, fp.reference_field)
                &&& entry.pad is None && entry.net is None
                &&& entry.layer == Some(layer_name(fp.layer))
                &&& entry.position == fp.position
            },
            _ => false,
        },
        Held::Pad(fp, child) => match child.content {
            ChildContent::Pad(pad) => {
                &&& entry.item_type == "pad"@
                &&& is_reference(entry.reference, fp.reference_field)
                &&& entry.pad == Some(pad.number@)
                &&& is_net(entry.net, pad.net)
                &&& match pad.pad_stack {
                    Some(stack) => if stack.layers@.len() > 0 {
                        entry.layer == Some(layer_name(stack.layers@[0]))
                    } else {
                        entry.layer is None
                    },
                    None => entry.layer is None,
                }
                &&& entry.position == pad.position
            },
            _ => false,
        },
    }
}

/// Whether something on the board is asked for by its identifier.
pub open spec fn is_asked_for(held: Held, ids: Seq<Seq<char>>) -> bool {
    exists|k: int| 0 <= k < ids.len() && is_identifier(#[trigger] ids[k], held)
}

/// The pads of the footprint that an item is, as far as they are asked for.
pub open spec fn pads_asked_for(item: Item, ids: Seq<Seq<char>>) -> Seq<Held> {
    match item.content {
        ItemContent::Footprint(fp) => children_in(item).filter(
            |child: ChildItem| is_pad_child(child) && is_asked_for(Held::Pad(fp, child), ids),
        ).map_values(|child: ChildItem| Held::Pad(fp, child)),
        _ => Seq::empty(),
    }
}

/// What an item holds that is asked for: itself, and behind it its pads where it is a
/// footprint.
pub open spec fn held_in(item: Item, ids: Seq<Seq<char>>) -> Seq<Held> {
    (if is_asked_for(Held::Item(item), ids) {
        seq![Held::Item(item)]
    } else {
        Seq::empty()
    }) + pads_asked_for(item, ids)
}

/// Whether items are all of one kind, and the pads of footprints can be read.
pub open spec fn are_readable(items: Seq<Item>, kind: spec_fn(ItemContent) -> bool) -> bool {
    forall|i: int|
        0 <= i < items.len() ==> kind((#[trigger] items[i]).content) && forall|k: int|
            0 <= k < children_in(items[i]).len() && is_pad_child(
                #[trigger] children_in(items[i])[k],
            ) ==> children_in(items[i])[k].content is Pad
}

proof fn lemma_wanted(entry: IdentityView, held: Held, ids: Seq<Seq<char>>)
    requires
        is_identifier(entry.kiid, held),
    ensures
        ids.contains(entry.kiid) <==> is_asked_for(held, ids),
{
    if ids.contains(entry.kiid) {
        let k = choose|k: int| 0 <= k < ids.len() && ids[k] == entry.kiid;
        assert(is_identifier(ids[k], held));
    }
    if is_asked_for(held, ids) {
        let k = choose|k: int| 0 <= k < ids.len() && is_identifier(#[trigger] ids[k], held);
        assert(ids[k] =~= entry.kiid);
    }
}

proof fn lemma_simple_identity(item: Item, ids: Seq<Seq<char>>)
    requires
        item.content is Track || item.content is Arc || item.content is Via,
    ensures
        item.content is Track ==> (track_identity(ids)(item) matches Ok(part) && lists(
            part,
            held_in(item, ids),
            |entry: IdentityView, held: Held| tells_identity(entry, held),
        )),
        item.content is Arc ==> (arc_identity(ids)(item) matches Ok(part) && lists(
            part,
            held_in(item, ids),
            |entry: IdentityView, held: Held| tells_identity(entry, held),
        )),
        item.content is Via ==> (via_identity(ids)(item) matches Ok(part) && lists(
            part,
            held_in(item, ids),
            |entry: IdentityView, held: Held| tells_identity(entry, held),
        )),
{
    let held = Held::Item(item);
    assert forall|entry: IdentityView| is_identifier(entry.kiid, held) implies (
    #[trigger] ids.contains(entry.kiid) <==> is_asked_for(held, ids)) by {
        lemma_wanted(entry, held, ids);
    }
    assert(held_in(item, ids) =~= if is_asked_for(held, ids) {
        seq![held]
    } else {
        Seq::empty()
    });
}

proof fn lemma_pad_identity(fp: FootprintInstance, child: ChildItem, ids: Seq<Seq<char>>)
    ensures
        ({
            let f = pad_identity(ids, reference_if_any(fp.reference_field));
            let held = Held::Pad(fp, child);
            &&& f(child) is Ok <==> (is_pad_child(child) ==> child.content is Pad)
            &&& is_pad_child(child) && is_asked_for(held, ids) ==> (f(child) matches Ok(part)
                ==> part.len() == 1 && tells_identity(part[0], held))
            &&& !(is_pad_child(child) && is_asked_for(held, ids)) ==> (f(child) matches Ok(part)
                ==> part.len() == 0)
        }),
{
    let held = Held::Pad(fp, child);
    lemma_suffix(child.type_url@, ".Pad"@);
    lemma_reference(fp.reference_field);
    assert forall|entry: IdentityView| is_identifier(entry.kiid, held) implies (
    #[trigger] ids.contains(entry.kiid) <==> is_asked_for(held, ids)) by {
        lemma_wanted(entry, held, ids);
    }
}

proof fn lemma_footprint_identity(item: Item, ids: Seq<Seq<char>>)
    ensures
        footprint_identity(ids)(item) is Ok <==> item.content is Footprint && forall|k: int|
            0 <= k < children_in(item).len() && is_pad_child(#[trigger] children_in(item)[k])
                ==> children_in(item)[k].content is Pad,
        footprint_identity(ids)(item) matches Ok(part) ==> lists(
            part,
            held_in(item, ids),
            |entry: IdentityView, held: Held| tells_identity(entry, held),
        ),
{
    if let ItemContent::Footprint(fp) = item.content {
        let f = pad_identity(ids, reference_if_any(fp.reference_field));
        let children = children_in(item);
        let keep = |child: ChildItem|
            is_pad_child(child) && is_asked_for(Held::Pad(fp, child), ids);
        let tells = |entry: IdentityView, child: ChildItem|
            tells_identity(entry, Held::Pad(fp, child));
        assert(children == children_of(fp));
        assert forall|a: ChildItem| #[trigger] keep(a) implies (f(a) matches Ok(part)
            ==> part.len() == 1 && tells(part[0], a)) by {
            lemma_pad_identity(fp, a, ids);
        }
        assert forall|a: ChildItem| !#[trigger] keep(a) implies (f(a) matches Ok(part)
            ==> part.len() == 0) by {
            lemma_pad_identity(fp, a, ids);
        }
        lemma_try_gather_filters(children, f, keep, tells);
        lemma_try_gather_is_ok(children, f);
        assert forall|k: int| 0 <= k < children.len() implies (f(#[trigger] children[k]) is Ok
            <==> (is_pad_child(children[k]) ==> children[k].content is Pad)) by {
            lemma_pad_identity(fp, children[k], ids);
        }
        let held = Held::Item(item);
        lemma_reference(fp.reference_field);
        assert forall|entry: IdentityView| is_identifier(entry.kiid, held) implies (
        #[trigger] ids.contains(entry.kiid) <==> is_asked_for(held, ids)) by {
            lemma_wanted(entry, held, ids);
        }
    }
}

/// Identifiers are resolved to what KiCad sent under them: the tracks, arcs, vias, footprints
/// and pads whose identifiers are asked for, in this order, each told as it was sent. They are
/// resolved just where everything that KiCad sent can be read.
pub proof fn identities_are_told_as_they_were_sent<'a>(
    ids: Seq<Seq<char>>,
    replies: Seq<Reply>,
    at: int,
    tracks: Seq<Item>,
    arcs: Seq<Item>,
    vias: Seq<Item>,
    footprints: Seq<Item>,
)
    requires
        sends_items(replies, at, tracks),
        sends_items(replies, at + 2, arcs),
        sends_items(replies, at + 4, vias),
        sends_items(replies, at + 6, footprints),
    ensures
        board_identities::<'a>(ids, replies, at) matches Progress::Done(result, used) && (
        result is Ok <==> {
            &&& forall|i: int| 0 <= i < tracks.len() ==> (#[trigger] tracks[i]).content is Track
            &&& forall|i: int| 0 <= i < arcs.len() ==> (#[trigger] arcs[i]).content is Arc
            &&& forall|i: int| 0 <= i < vias.len() ==> (#[trigger] vias[i]).content is Via
            &&& are_readable(footprints, |content: ItemContent| content is Footprint)
        }) && (result matches Ok(found) ==> used == at + 8 && lists(
            found,
            (tracks + arcs + vias + footprints).flat_map(|item: Item| held_in(item, ids)),
            |entry: IdentityView, held: Held| tells_identity(entry, held),
        )),
{
    let sources = |item: Item| held_in(item, ids);
    let tells = |entry: IdentityView, held: Held| tells_identity(entry, held);
    lemma_kind(tracks, track_identity(ids), ids, |content: ItemContent| content is Track);
    lemma_kind(arcs, arc_identity(ids), ids, |content: ItemContent| content is Arc);
    lemma_kind(vias, via_identity(ids), ids, |content: ItemContent| content is Via);
    lemma_kind(
        footprints,
        footprint_identity(ids),
        ids,
        |content: ItemContent| content is Footprint,
    );
    assert forall|i: int| 0 <= i < tracks.len() && (#[trigger] tracks[i]).content is Track implies
        children_in(tracks[i]).len() == 0 by {}
    assert forall|i: int| 0 <= i < arcs.len() && (#[trigger] arcs[i]).content is Arc implies
        children_in(arcs[i]).len() == 0 by {}
    assert forall|i: int| 0 <= i < vias.len() && (#[trigger] vias[i]).content is Via implies
        children_in(vias[i]).len() == 0 by {}
    let a = try_gather(tracks, track_identity(ids));
    let b = try_gather(arcs, arc_identity(ids));
    let c = try_gather(vias, via_identity(ids));
    let d = try_gather(footprints, footprint_identity(ids));
    lemma_flat_sum(tracks, arcs, sources);
    lemma_flat_sum(tracks + arcs, vias, sources);
    lemma_flat_sum(tracks + arcs + vias, footprints, sources);
    if a is Ok && b is Ok && c is Ok && d is Ok {
        let whole = a->Ok_0 + (b->Ok_0 + (c->Ok_0 + d->Ok_0));
        let all = (tracks + arcs + vias + footprints).flat_map(sources);
        lemma_lists_sum(
            c->Ok_0,
            d->Ok_0,
            vias.flat_map(sources),
            footprints.flat_map(sources),
            tells,
        );
        lemma_lists_sum(
            b->Ok_0,
            c->Ok_0 + d->Ok_0,
            arcs.flat_map(sources),
            vias.flat_map(sources) + footprints.flat_map(sources),
            tells,
        );
        lemma_lists_sum(
            a->Ok_0,
            b->Ok_0 + (c->Ok_0 + d->Ok_0),
            tracks.flat_map(sources),
            arcs.flat_map(sources) + (vias.flat_map(sources) + footprints.flat_map(sources)),
            tells,
        );
        assert(all =~= tracks.flat_map(sources) + (arcs.flat_map(sources) + (vias.flat_map(sources)
            + footprints.flat_map(sources))));
        assert(lists(whole, all, tells));
    }
}

proof fn lemma_flat_sum<A, C>(x: Seq<A>, y: Seq<A>, sources: spec_fn(A) -> Seq<C>)
    ensures
        (x + y).flat_map(sources) == x.flat_map(sources) + y.flat_map(sources),
{
    assert((x + y).map_values(sources) =~= x.map_values(sources) + y.map_values(sources));
    vstd::seq_lib::lemma_flatten_concat(x.map_values(sources), y.map_values(sources));
}

proof fn lemma_lists_sum<B, C>(
    x: Seq<B>,
    y: Seq<B>,
    p: Seq<C>,
    q: Seq<C>,
    tells: spec_fn(B, C) -> bool,
)
    requires
        lists(x, p, tells),
        lists(y, q, tells),
    ensures
        lists(x + y, p + q, tells),
{
    assert forall|k: int| 0 <= k < (x + y).len() implies tells(
        #[trigger] (x + y)[k],
        (p + q)[k],
    ) by {
        if k >= x.len() {
            assert(tells(y[k - x.len()], q[k - x.len()]));
        } else {
            assert(tells(x[k], p[k]));
        }
    }
}

proof fn lemma_kind(
    items: Seq<Item>,
    identify: spec_fn(Item) -> crate::identity::Identified,
    ids: Seq<Seq<char>>,
    kind: spec_fn(ItemContent) -> bool,
)
    requires
        identify == track_identity(ids) && kind == (|content: ItemContent| content is Track)
            || identify == arc_identity(ids) && kind == (|content: ItemContent| content is Arc)
            || identify == via_identity(ids) && kind == (|content: ItemContent| content is Via)
            || identify == footprint_identity(ids) && kind == (|content: ItemContent|
            content is Footprint),
    ensures
        try_gather(items, identify) is Ok <==> are_readable(items, kind),
        try_gather(items, identify) matches Ok(found) ==> lists(
            found,
            items.flat_map(|item: Item| held_in(item, ids)),
            |entry: IdentityView, held: Held| tells_identity(entry, held),
        ),
{
    let sources = |item: Item| held_in(item, ids);
    let tells = |entry: IdentityView, held: Held| tells_identity(entry, held);
    assert forall|i: int| #![trigger items[i]] 0 <= i < items.len() implies (identify(
        items[i],
    ) matches Ok(part) ==> lists(part, sources(items[i]), tells)) && (identify(items[i]) is Ok
        <==> kind(items[i].content) && forall|k: int|
        0 <= k < children_in(items[i]).len() && is_pad_child(#[trigger] children_in(items[i])[k])
            ==> children_in(items[i])[k].content is Pad) by {
        lemma_footprint_identity(items[i], ids);
        if items[i].content is Track || items[i].content is Arc || items[i].content is Via {
            lemma_simple_identity(items[i], ids);
        }
    }
    lemma_try_gather_flattens(items, identify, sources, tells);
    lemma_try_gather_is_ok(items, identify);
}

} // verus!
