//! What identifiers on the board stand for.

use crate::board::{IdentityView, IpcBoardItemIdentity};
use crate::envelope::KiCadIpcClient;
use crate::error::{CauseView, IpcError};
use crate::gather::{
    lemma_try_gather_fails, lemma_try_gather_source, lemma_try_gather_step, try_gather,
};
use crate::items::{
    arc_of, as_arc, as_footprint, as_pad, as_track, as_via, children_of, copy_net_if_any,
    field_text, footprint_of, net_if_any, pad_of, text_of_field, track_of, via_of,
};
use crate::layers::{layer_enum_to_name, layer_name};
use crate::messages::{Arc, BoardLayer, ChildItem, Field, Item, ItemKind, Net, Pad, PadStack, Via};
use crate::session::items_of;
use crate::step::{joined_lists, judged, seen, Progress, Reply, Step};
use crate::text;
use crate::text::{copy_option, copy_or_empty, finishes_with, text_or_empty};
use vstd::prelude::*;
use vstd::string::*;

verus! {

/// Identities, or why they could not be read.
pub type Identified = Result<Seq<IdentityView>, Seq<CauseView>>;

/// The identity itself, where its identifier is among those asked for.
pub open spec fn if_wanted(ids: Seq<Seq<char>>, identity: IdentityView) -> Seq<IdentityView> {
    if ids.contains(identity.kiid) {
        seq![identity]
    } else {
        Seq::empty()
    }
}

/// The identity of a track or an arc: it has a net and a layer, and no position.
pub open spec fn copper_identity(
    id: Option<String>,
    item_type: Seq<char>,
    net: Option<Net>,
    layer: BoardLayer,
) -> IdentityView {
    IdentityView {
        kiid: text_or_empty(id),
        item_type,
        reference: None,
        pad: None,
        net: net_if_any(net),
        layer: Some(layer_name(layer)),
        position: None,
    }
}

pub open spec fn track_identity(ids: Seq<Seq<char>>) -> spec_fn(Item) -> Identified {
    |item: Item|
        match as_track(item) {
            Err(e) => Err(e),
            Ok(track) => Ok(
                if_wanted(ids, copper_identity(track.id, "track"@, track.net, track.layer)),
            ),
        }
}

pub open spec fn arc_identity(ids: Seq<Seq<char>>) -> spec_fn(Item) -> Identified {
    |item: Item|
        match as_arc(item) {
            Err(e) => Err(e),
            Ok(arc) => Ok(
                if_wanted(ids, copper_identity(arc.id, "track_arc"@, arc.net, arc.layer)),
            ),
        }
}

pub open spec fn via_identity(ids: Seq<Seq<char>>) -> spec_fn(Item) -> Identified {
    |item: Item|
        match as_via(item) {
            Err(e) => Err(e),
            Ok(via) => Ok(
                if_wanted(
                    ids,
                    IdentityView {
                        kiid: text_or_empty(via.id),
                        item_type: "via"@,
                        reference: None,
                        pad: None,
                        net: net_if_any(via.net),
                        layer: None,
                        position: via.position,
                    },
                ),
            ),
        }
}

/// A footprint's reference, where it is not empty.
pub open spec fn reference_if_any(field: Option<Field>) -> Option<Seq<char>> {
    match text_of_field(field) {
        Some(t) => if t@.len() == 0 {
            None
        } else {
            Some(t@)
        },
        None => None,
    }
}

/// The first layer of a pad stack.
pub open spec fn first_layer(stack: Option<PadStack>) -> Option<Seq<char>> {
    match stack {
        Some(s) => if s.layers@.len() == 0 {
            None
        } else {
            Some(layer_name(s.layers@[0]))
        },
        None => None,
    }
}

/// The identity of a footprint's child, where the child is a pad.
pub open spec fn pad_identity(
    ids: Seq<Seq<char>>,
    reference: Option<Seq<char>>,
) -> spec_fn(ChildItem) -> Identified {
    |child: ChildItem|
        if !finishes_with(child.type_url@, ".Pad"@) {
            Ok(Seq::empty())
        } else {
            match as_pad(child) {
                Err(e) => Err(e),
                Ok(pad) => Ok(
                    if_wanted(
                        ids,
                        IdentityView {
                            kiid: text_or_empty(pad.id),
                            item_type: "pad"@,
                            reference,
                            pad: Some(pad.number@),
                            net: net_if_any(pad.net),
                            layer: first_layer(pad.pad_stack),
                            position: pad.position,
                        },
                    ),
                ),
            }
        }
}

/// The identities of a footprint and, behind it, of its pads.
pub open spec fn footprint_identity(ids: Seq<Seq<char>>) -> spec_fn(Item) -> Identified {
    |item: Item|
        match as_footprint(item) {
            Err(e) => Err(e),
            Ok(fp) => {
                let reference = reference_if_any(fp.reference_field);
                let own = if_wanted(
                    ids,
                    IdentityView {
                        kiid: text_or_empty(fp.id),
                        item_type: "footprint"@,
                        reference,
                        pad: None,
                        net: None,
                        layer: Some(layer_name(fp.layer)),
                        position: fp.position,
                    },
                );
                match try_gather(children_of(fp), pad_identity(ids, reference)) {
                    Err(e) => Err(e),
                    Ok(pads) => Ok(own + pads),
                }
            },
        }
}

/// The identities among the items of one kind.
pub open spec fn identities_of<'a>(
    kind: ItemKind,
    identify: spec_fn(Item) -> Identified,
    replies: Seq<Reply>,
    at: int,
) -> Progress<'a, Seq<IdentityView>> {
    judged(items_of(kind, replies, at), |items: Seq<Item>| try_gather(items, identify))
}

/// The identities of all items whose identifiers are asked for: tracks, arcs, vias and then
/// footprints with their pads.
pub open spec fn board_identities<'a>(
    ids: Seq<Seq<char>>,
    replies: Seq<Reply>,
    at: int,
) -> Progress<'a, Seq<IdentityView>> {
    joined_lists(
        identities_of(ItemKind::Trace, track_identity(ids), replies, at),
        |at2: int|
            joined_lists(
                identities_of(ItemKind::Arc, arc_identity(ids), replies, at2),
                |at3: int|
                    joined_lists(
                        identities_of(ItemKind::Via, via_identity(ids), replies, at3),
                        |at4: int|
                            identities_of(
                                ItemKind::Footprint,
                                footprint_identity(ids),
                                replies,
                                at4,
                            ),
                    ),
            ),
    )
}

fn add_if_wanted(
    ids: &Vec<String>,
    identity: IpcBoardItemIdentity,
    out: &mut Vec<IpcBoardItemIdentity>,
)
    ensures
        final(out).deep_view() == old(out).deep_view() + if_wanted(
            ids.deep_view(),
            identity.deep_view(),
        ),
{
    let ghost before = out.deep_view();
    let ghost view = identity.deep_view();
    if text::list_holds(ids, identity.kiid.as_str()) {
        out.push(identity);
        assert(out.deep_view() == before + seq![view]);
    } else {
        assert(before + Seq::<IdentityView>::empty() == before);
    }
}

fn identify_tracks(items: &Vec<&Item>, ids: &Vec<String>) -> (r: Result<
    Vec<IpcBoardItemIdentity>,
    IpcError,
>)
    ensures
        seen(r) == try_gather(items.deep_view(), track_identity(ids.deep_view())),
{
    let ghost all = items.deep_view();
    let ghost pick = track_identity(ids.deep_view());
    let mut out: Vec<IpcBoardItemIdentity> = Vec::new();
    let mut i: usize = 0;
    assert(out.deep_view() == Seq::<IdentityView>::empty());
    while i < items.len()
        invariant
            i <= items@.len(),
            all == items.deep_view(),
            pick == track_identity(ids.deep_view()),
            try_gather(all.take(i as int), pick) == Identified::Ok(out.deep_view()),
        decreases items@.len() - i,
    {
        proof {
            assert(all[i as int] == *items@[i as int]);
            lemma_try_gather_step(all, pick, i as int);
        }
        match track_of(items[i]) {
            Err(e) => {
                proof {
                    lemma_try_gather_fails(all, pick, i + 1);
                }
                return Err(e);
            },
            Ok(track) => {
                let identity = IpcBoardItemIdentity {
                    kiid: copy_or_empty(&track.id),
                    item_type: "track".to_owned(),
                    reference: None,
                    pad: None,
                    net: copy_net_if_any(&track.net),
                    layer: Some(layer_enum_to_name(track.layer).to_owned()),
                    position: None,
                };
                assert(identity.deep_view() == copper_identity(
                    track.id,
                    "track"@,
                    track.net,
                    track.layer,
                ));
                add_if_wanted(ids, identity, &mut out);
            },
        }
        i += 1;
    }
    assert(all.take(all.len() as int) == all);
    Ok(out)
}

fn identify_arcs(items: &Vec<&Item>, ids: &Vec<String>) -> (r: Result<
    Vec<IpcBoardItemIdentity>,
    IpcError,
>)
    ensures
        seen(r) == try_gather(items.deep_view(), arc_identity(ids.deep_view())),
{
    let ghost all = items.deep_view();
    let ghost pick = arc_identity(ids.deep_view());
    let mut out: Vec<IpcBoardItemIdentity> = Vec::new();
    let mut i: usize = 0;
    assert(out.deep_view() == Seq::<IdentityView>::empty());
    while i < items.len()
        invariant
            i <= items@.len(),
            all == items.deep_view(),
            pick == arc_identity(ids.deep_view()),
            try_gather(all.take(i as int), pick) == Identified::Ok(out.deep_view()),
        decreases items@.len() - i,
    {
        proof {
            assert(all[i as int] == *items@[i as int]);
            lemma_try_gather_step(all, pick, i as int);
        }
        match arc_of(items[i]) {
            Err(e) => {
                proof {
                    lemma_try_gather_fails(all, pick, i + 1);
                }
                return Err(e);
            },
            Ok(arc) => {
                let identity = IpcBoardItemIdentity {
                    kiid: copy_or_empty(&arc.id),
                    item_type: "track_arc".to_owned(),
                    reference: None,
                    pad: None,
                    net: copy_net_if_any(&arc.net),
                    layer: Some(layer_enum_to_name(arc.layer).to_owned()),
                    position: None,
                };
                assert(identity.deep_view() == copper_identity(
                    arc.id,
                    "track_arc"@,
                    arc.net,
                    arc.layer,
                ));
                add_if_wanted(ids, identity, &mut out);
            },
        }
        i += 1;
    }
    assert(all.take(all.len() as int) == all);
    Ok(out)
}

fn identify_vias(items: &Vec<&Item>, ids: &Vec<String>) -> (r: Result<
    Vec<IpcBoardItemIdentity>,
    IpcError,
>)
    ensures
        seen(r) == try_gather(items.deep_view(), via_identity(ids.deep_view())),
{
    let ghost all = items.deep_view();
    let ghost pick = via_identity(ids.deep_view());
    let mut out: Vec<IpcBoardItemIdentity> = Vec::new();
    let mut i: usize = 0;
    assert(out.deep_view() == Seq::<IdentityView>::empty());
    while i < items.len()
        invariant
            i <= items@.len(),
            all == items.deep_view(),
            pick == via_identity(ids.deep_view()),
            try_gather(all.take(i as int), pick) == Identified::Ok(out.deep_view()),
        decreases items@.len() - i,
    {
        proof {
            assert(all[i as int] == *items@[i as int]);
            lemma_try_gather_step(all, pick, i as int);
        }
        match via_of(items[i]) {
            Err(e) => {
                proof {
                    lemma_try_gather_fails(all, pick, i + 1);
                }
                return Err(e);
            },
            Ok(via) => {
                add_if_wanted(
                    ids,
                    IpcBoardItemIdentity {
                        kiid: copy_or_empty(&via.id),
                        item_type: "via".to_owned(),
                        reference: None,
                        pad: None,
                        net: copy_net_if_any(&via.net),
                        layer: None,
                        position: via.position,
                    },
                    &mut out,
                );
            },
        }
        i += 1;
    }
    assert(all.take(all.len() as int) == all);
    Ok(out)
}

pub fn copy_reference(field: &Option<Field>) -> (r: Option<String>)
    ensures
        r.deep_view() == reference_if_any(*field),
{
    match field_text(field) {
        Some(t) => if t.as_str().is_empty() {
            None
        } else {
            Some(t.clone())
        },
        None => None,
    }
}

fn name_first_layer(stack: &Option<PadStack>) -> (r: Option<String>)
    ensures
        r.deep_view() == first_layer(*stack),
{
    match stack {
        Some(s) => if s.layers.len() == 0 {
            None
        } else {
            Some(layer_enum_to_name(s.layers[0]).to_owned())
        },
        None => None,
    }
}

fn identify_pads(children: &Vec<ChildItem>, ids: &Vec<String>, reference: &Option<String>) -> (r:
    Result<Vec<IpcBoardItemIdentity>, IpcError>)
    ensures
        seen(r) == try_gather(children@, pad_identity(ids.deep_view(), reference.deep_view())),
{
    let ghost all = children@;
    let ghost pick = pad_identity(ids.deep_view(), reference.deep_view());
    let mut out: Vec<IpcBoardItemIdentity> = Vec::new();
    let mut i: usize = 0;
    assert(out.deep_view() == Seq::<IdentityView>::empty());
    while i < children.len()
        invariant
            i <= children@.len(),
            all == children@,
            pick == pad_identity(ids.deep_view(), reference.deep_view()),
            try_gather(all.take(i as int), pick) == Identified::Ok(out.deep_view()),
        decreases children@.len() - i,
    {
        let child = &children[i];
        proof {
            lemma_try_gather_step(all, pick, i as int);
        }
        if text::ends_with(child.type_url.as_str(), ".Pad") {
            match pad_of(child) {
                Err(e) => {
                    proof {
                        lemma_try_gather_fails(all, pick, i + 1);
                    }
                    return Err(e);
                },
                Ok(pad) => {
                    add_if_wanted(
                        ids,
                        IpcBoardItemIdentity {
                            kiid: copy_or_empty(&pad.id),
                            item_type: "pad".to_owned(),
                            reference: copy_option(reference),
                            pad: Some(pad.number.clone()),
                            net: copy_net_if_any(&pad.net),
                            layer: name_first_layer(&pad.pad_stack),
                            position: pad.position,
                        },
                        &mut out,
                    );
                },
            }
        } else {
            assert(out.deep_view() + Seq::<IdentityView>::empty() == out.deep_view());
        }
        i += 1;
    }
    assert(all.take(all.len() as int) == all);
    Ok(out)
}

fn identify_footprints(items: &Vec<&Item>, ids: &Vec<String>) -> (r: Result<
    Vec<IpcBoardItemIdentity>,
    IpcError,
>)
    ensures
        seen(r) == try_gather(items.deep_view(), footprint_identity(ids.deep_view())),
{
    let ghost all = items.deep_view();
    let ghost pick = footprint_identity(ids.deep_view());
    let mut out: Vec<IpcBoardItemIdentity> = Vec::new();
    let mut i: usize = 0;
    assert(out.deep_view() == Seq::<IdentityView>::empty());
    while i < items.len()
        invariant
            i <= items@.len(),
            all == items.deep_view(),
            pick == footprint_identity(ids.deep_view()),
            try_gather(all.take(i as int), pick) == Identified::Ok(out.deep_view()),
        decreases items@.len() - i,
    {
        proof {
            assert(all[i as int] == *items@[i as int]);
            lemma_try_gather_step(all, pick, i as int);
        }
        let fp = match footprint_of(items[i]) {
            Err(e) => {
                proof {
                    lemma_try_gather_fails(all, pick, i + 1);
                }
                return Err(e);
            },
            Ok(fp) => fp,
        };
        let ghost before = out.deep_view();
        let reference = copy_reference(&fp.reference_field);
        let own = IpcBoardItemIdentity {
            kiid: copy_or_empty(&fp.id),
            item_type: "footprint".to_owned(),
            reference: copy_option(&reference),
            pad: None,
            net: None,
            layer: Some(layer_enum_to_name(fp.layer).to_owned()),
            position: fp.position,
        };
        let ghost own_view = own.deep_view();
        add_if_wanted(ids, own, &mut out);
        match &fp.definition {
            Some(definition) => match identify_pads(&definition.items, ids, &reference) {
                Err(e) => {
                    proof {
                        lemma_try_gather_fails(all, pick, i + 1);
                    }
                    return Err(e);
                },
                Ok(pads) => {
                    let ghost pad_views = pads.deep_view();
                    let ghost sofar = out.deep_view();
                    let mut pads = pads;
                    out.append(&mut pads);
                    assert(out.deep_view() == sofar + pad_views);
                    assert(out.deep_view() == before + (if_wanted(ids.deep_view(), own_view)
                        + pad_views));
                },
            },
            None => {
                assert(out.deep_view() == before + (if_wanted(ids.deep_view(), own_view)
                    + Seq::<IdentityView>::empty()));
            },
        }
        i += 1;
    }
    assert(all.take(all.len() as int) == all);
    Ok(out)
}

impl KiCadIpcClient {
    /// What the identifiers stand for, as far as the board knows them. An identifier that is
    /// not found is left out.
    pub fn resolve_board_item_ids<'a>(
        &self,
        ids: &Vec<String>,
        replies: &'a Vec<Reply>,
        at: usize,
    ) -> (r: Step<'a, Vec<IpcBoardItemIdentity>>)
        ensures
            r.deep_view() == board_identities(ids.deep_view(), replies@, at as int),
    {
        let (items, at2) = match self.get_items(ItemKind::Trace, replies, at) {
            Step::Next(task) => {
                return Step::Next(task);
            },
            Step::Done(Err(error), used) => {
                return Step::Done(Err(error), used);
            },
            Step::Done(Ok(items), used) => (items, used),
        };
        let mut resolved = match identify_tracks(&items, ids) {
            Err(error) => {
                return Step::Done(Err(error), at2);
            },
            Ok(found) => found,
        };
        let ghost tracks = resolved.deep_view();
        let (items, at3) = match self.get_items(ItemKind::Arc, replies, at2) {
            Step::Next(task) => {
                return Step::Next(task);
            },
            Step::Done(Err(error), used) => {
                return Step::Done(Err(error), used);
            },
            Step::Done(Ok(items), used) => (items, used),
        };
        let mut arcs = match identify_arcs(&items, ids) {
            Err(error) => {
                return Step::Done(Err(error), at3);
            },
            Ok(found) => found,
        };
        let ghost arc_views = arcs.deep_view();
        let (items, at4) = match self.get_items(ItemKind::Via, replies, at3) {
            Step::Next(task) => {
                return Step::Next(task);
            },
            Step::Done(Err(error), used) => {
                return Step::Done(Err(error), used);
            },
            Step::Done(Ok(items), used) => (items, used),
        };
        let mut vias = match identify_vias(&items, ids) {
            Err(error) => {
                return Step::Done(Err(error), at4);
            },
            Ok(found) => found,
        };
        let ghost via_views = vias.deep_view();
        let (items, at5) = match self.get_items(ItemKind::Footprint, replies, at4) {
            Step::Next(task) => {
                return Step::Next(task);
            },
            Step::Done(Err(error), used) => {
                return Step::Done(Err(error), used);
            },
            Step::Done(Ok(items), used) => (items, used),
        };
        let mut footprints = match identify_footprints(&items, ids) {
            Err(error) => {
                return Step::Done(Err(error), at5);
            },
            Ok(found) => found,
        };
        let ghost footprint_views = footprints.deep_view();
        resolved.append(&mut arcs);
        resolved.append(&mut vias);
        resolved.append(&mut footprints);
        assert(resolved.deep_view() == tracks + (arc_views + (via_views + footprint_views)));
        Step::Done(Ok(resolved), at5)
    }
}

/// Whether all identities are among those asked for.
pub open spec fn all_wanted(found: Seq<IdentityView>, ids: Seq<Seq<char>>) -> bool {
    forall|i: int| 0 <= i < found.len() ==> ids.contains((#[trigger] found[i]).kiid)
}

proof fn lemma_all_wanted(
    items: Seq<Item>,
    identify: spec_fn(Item) -> Identified,
    ids: Seq<Seq<char>>,
)
    requires
        identify == track_identity(ids) || identify == arc_identity(ids) || identify
            == via_identity(ids) || identify == footprint_identity(ids),
    ensures
        try_gather(items, identify) matches Ok(found) ==> all_wanted(found, ids),
{
    if let Ok(found) = try_gather(items, identify) {
        assert forall|i: int| 0 <= i < found.len() implies ids.contains(
            (#[trigger] found[i]).kiid,
        ) by {
            let source = lemma_try_gather_source(items, identify, i);
            let part = identify(items[source.0])->Ok_0;
            if identify == footprint_identity(ids) && identify != track_identity(ids)
                && identify != arc_identity(ids) && identify != via_identity(ids) {
                let fp = as_footprint(items[source.0])->Ok_0;
                let reference = reference_if_any(fp.reference_field);
                let pick = pad_identity(ids, reference);
                let pads = try_gather(children_of(fp), pick)->Ok_0;
                let own = part.len() - pads.len();
                if source.1 >= own {
                    let inner = lemma_try_gather_source(children_of(fp), pick, source.1 - own);
                }
            }
        }
    }
}

/// Only identifiers that were asked for are resolved: one that the board does not know is
/// left out, and nothing else comes in its place.
pub proof fn only_wanted_items_are_resolved(ids: Seq<Seq<char>>, replies: Seq<Reply>, at: int)
    ensures
        board_identities(ids, replies, at) matches Progress::Done(Ok(found), _) ==> all_wanted(
            found,
            ids,
        ),
{
    if let Progress::Done(Ok(found), _) = board_identities(ids, replies, at) {
        let tracks = items_of(ItemKind::Trace, replies, at);
        let arcs = items_of(ItemKind::Arc, replies, tracks->Done_1);
        let vias = items_of(ItemKind::Via, replies, arcs->Done_1);
        let footprints = items_of(ItemKind::Footprint, replies, vias->Done_1);
        lemma_all_wanted(tracks->Done_0->Ok_0, track_identity(ids), ids);
        lemma_all_wanted(arcs->Done_0->Ok_0, arc_identity(ids), ids);
        lemma_all_wanted(vias->Done_0->Ok_0, via_identity(ids), ids);
        lemma_all_wanted(footprints->Done_0->Ok_0, footprint_identity(ids), ids);
    }
}

} // verus!
