//! Tracks, track arcs and vias.

use crate::board::{IpcTrack, IpcTrackArc, IpcViaGeometry, TrackArcView, TrackView, ViaView};
use crate::envelope::KiCadIpcClient;
use crate::error::{plain, CauseView, IpcError};
use crate::gather::{
    gather, lemma_gather_step, lemma_try_gather_fails, lemma_try_gather_step, optional, try_gather,
};
use crate::items::{
    arc_of, as_arc, as_track, as_via, code_of_net, copy_net_name, name_of_net, net_id, track_of,
    via_of,
};
use crate::layers::{layer_enum_to_name, layer_name, layer_names, name_layers};
use crate::messages::{Item, ItemKind, PadStack, Track, Vector2, Via};
use crate::session::{items_of, or_origin, vector_or_origin};
use crate::step::{judged, seen, Progress, Reply, Step};
use crate::text;
use crate::text::{copy_or_empty, text_or_empty};
use vstd::prelude::*;
use vstd::string::*;

verus! {

/// The width of a track that states none: a quarter of a millimetre.
pub const DEFAULT_WIDTH_NM: i64 = 250_000;

pub open spec fn width_or_default(width: Option<i64>) -> i64 {
    match width {
        Some(w) => w,
        None => DEFAULT_WIDTH_NM,
    }
}

fn or_default_width(width: Option<i64>) -> (r: i64)
    ensures
        r == width_or_default(width),
{
    match width {
        Some(w) => w,
        None => DEFAULT_WIDTH_NM,
    }
}

/// Whether a text passes a filter; a missing filter lets all through.
pub open spec fn passes(filter: Option<Seq<char>>, value: Seq<char>) -> bool {
    filter matches Some(wanted) ==> value == wanted
}

pub fn lets_through(filter: Option<&str>, value: &str) -> (r: bool)
    ensures
        r == passes(filter.deep_view(), value@),
{
    match filter {
        Some(wanted) => text::same(value, wanted),
        None => true,
    }
}

/// A track as it is listed.
pub open spec fn track_entry(track: Track) -> TrackView {
    TrackView {
        kiid: text_or_empty(track.id),
        net_name: name_of_net(track.net),
        layer: layer_name(track.layer),
        width_nm: width_or_default(track.width_nm),
        start: vector_or_origin(track.start),
        end: vector_or_origin(track.end),
    }
}

/// The track that an item holds, where it passes the filters.
pub open spec fn listed_track(
    net: Option<Seq<char>>,
    layer: Option<Seq<char>>,
) -> spec_fn(Item) -> Seq<TrackView> {
    |item: Item|
        optional(
            match as_track(item) {
                Ok(track) => if passes(net, name_of_net(track.net)) && passes(
                    layer,
                    layer_name(track.layer),
                ) {
                    Some(track_entry(track))
                } else {
                    None
                },
                Err(_) => None,
            },
        )
}

/// The tracks of the board that pass the filters.
pub open spec fn board_tracks<'a>(
    net: Option<Seq<char>>,
    layer: Option<Seq<char>>,
    replies: Seq<Reply>,
    at: int,
) -> Progress<'a, Seq<TrackView>> {
    judged(
        items_of(ItemKind::Trace, replies, at),
        |items: Seq<Item>| Ok(gather(items, listed_track(net, layer))),
    )
}

fn list_track(track: &Track) -> (r: IpcTrack)
    ensures
        r.deep_view() == track_entry(*track),
{
    IpcTrack {
        kiid: copy_or_empty(&track.id),
        net_name: copy_net_name(&track.net),
        layer: layer_enum_to_name(track.layer).to_owned(),
        width_nm: or_default_width(track.width_nm),
        start: or_origin(track.start),
        end: or_origin(track.end),
    }
}

/// The copper size of a pad stack: that of its first copper layer.
pub open spec fn stack_size(stack: Option<PadStack>) -> Option<Vector2> {
    match stack {
        Some(s) => if s.copper_layers@.len() == 0 {
            None
        } else {
            s.copper_layers@[0].size
        },
        None => None,
    }
}

pub fn copper_size(stack: &Option<PadStack>) -> (r: Option<Vector2>)
    ensures
        r == stack_size(*stack),
{
    match stack {
        Some(s) => if s.copper_layers.len() == 0 {
            None
        } else {
            s.copper_layers[0].size
        },
        None => None,
    }
}

pub open spec fn stack_drill(stack: Option<PadStack>) -> Option<Vector2> {
    match stack {
        Some(s) => match s.drill {
            Some(d) => d.diameter,
            None => None,
        },
        None => None,
    }
}

fn drill_size(stack: &Option<PadStack>) -> (r: Option<Vector2>)
    ensures
        r == stack_drill(*stack),
{
    match stack {
        Some(s) => match &s.drill {
            Some(d) => d.diameter,
            None => None,
        },
        None => None,
    }
}

pub open spec fn stack_layers(stack: Option<PadStack>) -> Seq<Seq<char>> {
    match stack {
        Some(s) => layer_names(s.layers@),
        None => Seq::empty(),
    }
}

pub fn name_stack_layers(stack: &Option<PadStack>) -> (r: Vec<String>)
    ensures
        r.deep_view() == stack_layers(*stack),
{
    match stack {
        Some(s) => name_layers(&s.layers),
        None => {
            let none: Vec<String> = Vec::new();
            assert(none.deep_view() == Seq::<Seq<char>>::empty());
            none
        },
    }
}

/// A via as it is listed.
pub open spec fn via_entry(via: Via) -> ViaView {
    ViaView {
        kiid: text_or_empty(via.id),
        position: vector_or_origin(via.position),
        size: stack_size(via.pad_stack),
        drill: stack_drill(via.pad_stack),
        layers: stack_layers(via.pad_stack),
        net_name: name_of_net(via.net),
        net_id: code_of_net(via.net),
    }
}

pub fn list_via(via: &Via) -> (r: IpcViaGeometry)
    ensures
        r.deep_view() == via_entry(*via),
{
    IpcViaGeometry {
        kiid: copy_or_empty(&via.id),
        position: or_origin(via.position),
        size: copper_size(&via.pad_stack),
        drill: drill_size(&via.pad_stack),
        layers: name_stack_layers(&via.pad_stack),
        net_name: copy_net_name(&via.net),
        net_id: net_id(&via.net),
    }
}

/// The via that an item holds, where it passes the filter.
pub open spec fn listed_via(net: Option<Seq<char>>) -> spec_fn(Item) -> Seq<ViaView> {
    |item: Item|
        optional(
            match as_via(item) {
                Ok(via) => if passes(net, name_of_net(via.net)) {
                    Some(via_entry(via))
                } else {
                    None
                },
                Err(_) => None,
            },
        )
}

/// The vias of the board that pass the filter.
pub open spec fn board_vias<'a>(
    net: Option<Seq<char>>,
    replies: Seq<Reply>,
    at: int,
) -> Progress<'a, Seq<ViaView>> {
    judged(
        items_of(ItemKind::Via, replies, at),
        |items: Seq<Item>| Ok(gather(items, listed_via(net))),
    )
}

/// The track or via that an item of this kind is, by its identifier.
pub open spec fn has_id(item: Item, kind: ItemKind, uuid: Seq<char>) -> bool {
    match kind {
        ItemKind::Trace => match as_track(item) {
            Ok(track) => track.id matches Some(id) && id@ == uuid,
            Err(_) => false,
        },
        ItemKind::Via => match as_via(item) {
            Ok(via) => via.id matches Some(id) && id@ == uuid,
            Err(_) => false,
        },
        _ => false,
    }
}

fn carries_id(item: &Item, kind: ItemKind, uuid: &str) -> (r: bool)
    ensures
        r == has_id(*item, kind, uuid@),
{
    let id = match kind {
        ItemKind::Trace => match track_of(item) {
            Ok(track) => &track.id,
            Err(_) => {
                return false;
            },
        },
        ItemKind::Via => match via_of(item) {
            Ok(via) => &via.id,
            Err(_) => {
                return false;
            },
        },
        _ => {
            return false;
        },
    };
    match id {
        Some(value) => text::same(value.as_str(), uuid),
        None => false,
    }
}

pub open spec fn uuid_missing_text(kind: Seq<char>, uuid: Seq<char>) -> Seq<char> {
    kind + " UUID '"@ + uuid + "' was not found on the active board"@
}

/// Whether the board holds an item of a kind with an identifier.
pub open spec fn item_present<'a>(
    uuid: Seq<char>,
    expected: ItemKind,
    kind: Seq<char>,
    replies: Seq<Reply>,
    at: int,
) -> Progress<'a, ()> {
    judged(
        items_of(expected, replies, at),
        |items: Seq<Item>|
            if exists|i: int| 0 <= i < items.len() && has_id(#[trigger] items[i], expected, uuid) {
                Ok(())
            } else {
                Err(plain(uuid_missing_text(kind, uuid)))
            },
    )
}

impl KiCadIpcClient {
    /// The tracks of the board, by net and by layer where these are given.
    pub fn get_tracks<'a>(
        &self,
        net_filter: Option<&str>,
        layer_filter: Option<&str>,
        replies: &'a Vec<Reply>,
        at: usize,
    ) -> (r: Step<'a, Vec<IpcTrack>>)
        ensures
            r.deep_view() == board_tracks(
                net_filter.deep_view(),
                layer_filter.deep_view(),
                replies@,
                at as int,
            ),
    {
        let (items, used) = match self.get_items(ItemKind::Trace, replies, at) {
            Step::Next(task) => {
                return Step::Next(task);
            },
            Step::Done(Err(error), used) => {
                return Step::Done(Err(error), used);
            },
            Step::Done(Ok(items), used) => (items, used),
        };
        let ghost all = items.deep_view();
        let ghost pick = listed_track(net_filter.deep_view(), layer_filter.deep_view());
        let mut out: Vec<IpcTrack> = Vec::new();
        let mut i: usize = 0;
        while i < items.len()
            invariant
                i <= items@.len(),
                all == items.deep_view(),
                pick == listed_track(net_filter.deep_view(), layer_filter.deep_view()),
                out.deep_view() == gather(all.take(i as int), pick),
            decreases items@.len() - i,
        {
            proof {
                assert(all[i as int] == *items@[i as int]);
                lemma_gather_step(all, pick, i as int);
            }
            if let Ok(track) = track_of(items[i]) {
                if lets_through(net_filter, copy_net_name(&track.net).as_str()) && lets_through(
                    layer_filter,
                    layer_enum_to_name(track.layer),
                ) {
                    let ghost before = out.deep_view();
                    let entry = list_track(track);
                    out.push(entry);
                    assert(out.deep_view() == before.push(entry.deep_view()));
                }
            }
            i += 1;
        }
        assert(all.take(all.len() as int) == all);
        Step::Done(Ok(out), used)
    }

    /// The vias of the board, by net where one is given.
    pub fn get_vias<'a>(
        &self,
        net_filter: Option<&str>,
        replies: &'a Vec<Reply>,
        at: usize,
    ) -> (r: Step<'a, Vec<IpcViaGeometry>>)
        ensures
            r.deep_view() == board_vias(net_filter.deep_view(), replies@, at as int),
    {
        let (items, used) = match self.get_items(ItemKind::Via, replies, at) {
            Step::Next(task) => {
                return Step::Next(task);
            },
            Step::Done(Err(error), used) => {
                return Step::Done(Err(error), used);
            },
            Step::Done(Ok(items), used) => (items, used),
        };
        let ghost all = items.deep_view();
        let ghost pick = listed_via(net_filter.deep_view());
        let mut out: Vec<IpcViaGeometry> = Vec::new();
        let mut i: usize = 0;
        while i < items.len()
            invariant
                i <= items@.len(),
                all == items.deep_view(),
                pick == listed_via(net_filter.deep_view()),
                out.deep_view() == gather(all.take(i as int), pick),
            decreases items@.len() - i,
        {
            proof {
                assert(all[i as int] == *items@[i as int]);
                lemma_gather_step(all, pick, i as int);
            }
            if let Ok(via) = via_of(items[i]) {
                if lets_through(net_filter, copy_net_name(&via.net).as_str()) {
                    let ghost before = out.deep_view();
                    let entry = list_via(via);
                    out.push(entry);
                    assert(out.deep_view() == before.push(entry.deep_view()));
                }
            }
            i += 1;
        }
        assert(all.take(all.len() as int) == all);
        Step::Done(Ok(out), used)
    }

    /// Fails unless the board holds an item of a kind with an identifier.
    pub fn ensure_item_kind<'a>(
        &self,
        uuid: &str,
        expected: ItemKind,
        kind: &str,
        replies: &'a Vec<Reply>,
        at: usize,
    ) -> (r: Step<'a, ()>)
        ensures
            r.deep_view() == item_present(uuid@, expected, kind@, replies@, at as int),
    {
        let (items, used) = match self.get_items(expected, replies, at) {
            Step::Next(task) => {
                return Step::Next(task);
            },
            Step::Done(Err(error), used) => {
                return Step::Done(Err(error), used);
            },
            Step::Done(Ok(items), used) => (items, used),
        };
        let ghost all = items.deep_view();
        let mut i: usize = 0;
        while i < items.len()
            invariant
                i <= items@.len(),
                all == items.deep_view(),
                items_of(expected, replies@, at as int) == Progress::Done(Ok(all), used as int),
                forall|j: int| 0 <= j < i ==> !has_id(#[trigger] all[j], expected, uuid@),
            decreases items@.len() - i,
        {
            assert(all[i as int] == *items@[i as int]);
            if carries_id(items[i], expected, uuid) {
                return Step::Done(Ok(()), used);
            }
            i += 1;
        }
        let mut message = kind.to_owned();
        message.append(" UUID '");
        message.append(uuid);
        message.append("' was not found on the active board");
        Step::Done(Err(IpcError::new(message)), used)
    }
}

/// What is said of a track arc that lacks a point.
pub open spec fn incomplete_arc_text() -> Seq<char> {
    "track arc item has incomplete IPC geometry"@
}

/// The track arc that an item holds.
pub open spec fn listed_arc(item: Item) -> Result<Seq<TrackArcView>, Seq<CauseView>> {
    match as_arc(item) {
        Err(e) => Err(e),
        Ok(arc) => match (arc.start, arc.mid, arc.end) {
            (Some(start), Some(mid), Some(end)) => Ok(
                seq![
                    TrackArcView {
                        net_name: name_of_net(arc.net),
                        layer: layer_name(arc.layer),
                        width_nm: width_or_default(arc.width_nm),
                        start,
                        mid,
                        end,
                    },
                ],
            ),
            _ => Err(plain(incomplete_arc_text())),
        },
    }
}

fn list_arc(item: &Item) -> (r: Result<IpcTrackArc, IpcError>)
    ensures
        match r {
            Ok(arc) => listed_arc(*item) == Ok::<Seq<TrackArcView>, Seq<CauseView>>(
                seq![arc.deep_view()],
            ),
            Err(e) => listed_arc(*item) == Err::<Seq<TrackArcView>, Seq<CauseView>>(e.deep_view()),
        },
{
    match arc_of(item) {
        Err(e) => Err(e),
        Ok(arc) => match (arc.start, arc.mid, arc.end) {
            (Some(start), Some(mid), Some(end)) => Ok(
                IpcTrackArc {
                    net_name: copy_net_name(&arc.net),
                    layer: layer_enum_to_name(arc.layer).to_owned(),
                    width_nm: or_default_width(arc.width_nm),
                    start,
                    mid,
                    end,
                },
            ),
            _ => Err(IpcError::say("track arc item has incomplete IPC geometry")),
        },
    }
}

/// The track arcs among items; the first one that is not whole fails them all.
pub fn list_arcs(items: &Vec<&Item>) -> (r: Result<Vec<IpcTrackArc>, IpcError>)
    ensures
        seen(r) == try_gather(items.deep_view(), |i: Item| listed_arc(i)),
{
    let ghost all = items.deep_view();
    let ghost pick = |i: Item| listed_arc(i);
    let mut out: Vec<IpcTrackArc> = Vec::new();
    let mut i: usize = 0;
    assert(out.deep_view() == Seq::<TrackArcView>::empty());
    while i < items.len()
        invariant
            i <= items@.len(),
            all == items.deep_view(),
            pick == (|i: Item| listed_arc(i)),
            try_gather(all.take(i as int), pick) == Ok::<Seq<TrackArcView>, Seq<CauseView>>(
                out.deep_view(),
            ),
        decreases items@.len() - i,
    {
        proof {
            assert(all[i as int] == *items@[i as int]);
            lemma_try_gather_step(all, pick, i as int);
        }
        match list_arc(items[i]) {
            Err(e) => {
                proof {
                    lemma_try_gather_fails(all, pick, i + 1);
                }
                return Err(e);
            },
            Ok(arc) => {
                let ghost before = out.deep_view();
                out.push(arc);
                assert(out.deep_view() == before + seq![arc.deep_view()]);
            },
        }
        i += 1;
    }
    assert(all.take(all.len() as int) == all);
    Ok(out)
}

/// The via that an item holds, or why it holds none.
pub open spec fn required_via(item: Item) -> Result<Seq<ViaView>, Seq<CauseView>> {
    match as_via(item) {
        Err(e) => Err(e),
        Ok(via) => Ok(seq![via_entry(via)]),
    }
}

/// The vias among items; the first item that holds none fails them all.
pub fn require_vias(items: &Vec<&Item>) -> (r: Result<Vec<IpcViaGeometry>, IpcError>)
    ensures
        seen(r) == try_gather(items.deep_view(), |i: Item| required_via(i)),
{
    let ghost all = items.deep_view();
    let ghost pick = |i: Item| required_via(i);
    let mut out: Vec<IpcViaGeometry> = Vec::new();
    let mut i: usize = 0;
    assert(out.deep_view() == Seq::<ViaView>::empty());
    while i < items.len()
        invariant
            i <= items@.len(),
            all == items.deep_view(),
            pick == (|i: Item| required_via(i)),
            try_gather(all.take(i as int), pick) == Ok::<Seq<ViaView>, Seq<CauseView>>(
                out.deep_view(),
            ),
        decreases items@.len() - i,
    {
        proof {
            assert(all[i as int] == *items@[i as int]);
            lemma_try_gather_step(all, pick, i as int);
        }
        match via_of(items[i]) {
            Err(e) => {
                proof {
                    lemma_try_gather_fails(all, pick, i + 1);
                }
                return Err(e);
            },
            Ok(via) => {
                let ghost before = out.deep_view();
                let entry = list_via(via);
                out.push(entry);
                assert(out.deep_view() == before + seq![entry.deep_view()]);
            },
        }
        i += 1;
    }
    assert(all.take(all.len() as int) == all);
    Ok(out)
}

/// Whether a listed track passes the filters.
pub open spec fn track_passes(
    net: Option<Seq<char>>,
    layer: Option<Seq<char>>,
) -> spec_fn(TrackView) -> bool {
    |track: TrackView| passes(net, track.net_name) && passes(layer, track.layer)
}

/// Whether a listed via passes the filter.
pub open spec fn via_passes(net: Option<Seq<char>>) -> spec_fn(ViaView) -> bool {
    |via: ViaView| passes(net, via.net_name)
}

/// What is kept of each item that is gathered is what is kept of them all.
proof fn lemma_gather_filtered<B>(
    items: Seq<Item>,
    all: spec_fn(Item) -> Seq<B>,
    kept: spec_fn(Item) -> Seq<B>,
    keep: spec_fn(B) -> bool,
)
    requires
        forall|item: Item| #[trigger] kept(item) == all(item).filter(keep),
    ensures
        gather(items, kept) == gather(items, all).filter(keep),
    decreases items.len(),
{
    if items.len() > 0 {
        lemma_gather_filtered(items.drop_last(), all, kept, keep);
        Seq::filter_distributes_over_add(
            gather(items.drop_last(), all),
            all(items.last()),
            keep,
        );
    } else {
        reveal(Seq::filter);
    }
}

/// The tracks that are listed under filters are those of the whole list that match them, in
/// the order of the whole list.
pub proof fn filtered_tracks_are_the_matching_ones<'a>(
    net: Option<Seq<char>>,
    layer: Option<Seq<char>>,
    replies: Seq<Reply>,
    at: int,
)
    ensures
        board_tracks::<'a>(net, layer, replies, at) == judged(
            board_tracks::<'a>(None, None, replies, at),
            |all: Seq<TrackView>| Ok(all.filter(track_passes(net, layer))),
        ),
{
    let all = listed_track(None, None);
    let kept = listed_track(net, layer);
    let keep = track_passes(net, layer);
    assert forall|item: Item| #[trigger] kept(item) == all(item).filter(keep) by {
        reveal_with_fuel(Seq::filter, 2);
        assert(all(item).len() > 0 ==> all(item).drop_last() == Seq::<TrackView>::empty());
    }
    if let Progress::Done(Ok(items), _) = items_of(ItemKind::Trace, replies, at) {
        lemma_gather_filtered(items, all, kept, keep);
    }
}

/// The vias that are listed under a filter are those of the whole list that match it, in the
/// order of the whole list.
pub proof fn filtered_vias_are_the_matching_ones<'a>(
    net: Option<Seq<char>>,
    replies: Seq<Reply>,
    at: int,
)
    ensures
        board_vias::<'a>(net, replies, at) == judged(
            board_vias::<'a>(None, replies, at),
            |all: Seq<ViaView>| Ok(all.filter(via_passes(net))),
        ),
{
    let all = listed_via(None);
    let kept = listed_via(net);
    let keep = via_passes(net);
    assert forall|item: Item| #[trigger] kept(item) == all(item).filter(keep) by {
        reveal_with_fuel(Seq::filter, 2);
        assert(all(item).len() > 0 ==> all(item).drop_last() == Seq::<ViaView>::empty());
    }
    if let Progress::Done(Ok(items), _) = items_of(ItemKind::Via, replies, at) {
        lemma_gather_filtered(items, all, kept, keep);
    }
}

} // verus!
