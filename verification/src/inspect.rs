//! Looking at a part of a board's routing geometry.

use crate::board::{
    IpcPadGeometry, IpcPolygonGeometry, IpcRoutingGeometry, IpcTrack, IpcViaGeometry, PadView,
    PolygonView, RoutingView, TrackArcView, TrackView, ViaView,
};
use crate::clearance::{is_on, lies_on};
use crate::gather::{gather_indexed, lemma_gather_indexed_step};
use crate::json::Region;
use crate::scalar::Point;
use crate::text;
use crate::tracks::{lets_through, passes};
use vstd::prelude::*;
use vstd::string::*;

verus! {

/// Whether a point lies in a region, its bounds included; without a region every point does.
pub open spec fn in_region(p: Point, region: Option<Region>) -> bool {
    region matches Some(r) ==> {
        &&& r.x_min.at_most(p.x)
        &&& r.y_min.at_most(p.y)
        &&& p.x.at_most(r.x_max)
        &&& p.y.at_most(r.y_max)
    }
}

/// Whether a point lies in a region.
pub fn geometry_in_region(p: Point, region: Option<Region>) -> (r: bool)
    ensures
        r == in_region(p, region),
{
    match region {
        Some(r) => r.x_min.le(p.x) && r.y_min.le(p.y) && p.x.le(r.x_max) && p.y.le(r.y_max),
        None => true,
    }
}

// What the caller worked out.

/// The two ends of a track, in millimetres.
#[derive(Clone, Copy, Debug)]
pub struct TrackEnds {
    pub start: Point,
    pub end: Point,
}

/// Where things are, in millimetres.
#[derive(Debug)]
pub struct Places {
    pub tracks: Vec<TrackEnds>,
    pub pads: Vec<Point>,
    pub vias: Vec<Point>,
    /// The corners of each polygon of each courtyard.
    pub courtyards: Vec<Vec<Vec<Point>>>,
}

/// Whether places are those of a board.
pub open spec fn places_fit(places: Places, g: RoutingView) -> bool {
    &&& places.tracks@.len() == g.tracks.items.len()
    &&& places.pads@.len() == g.pads.items.len()
    &&& places.vias@.len() == g.vias.items.len()
    &&& places.courtyards@.len() == g.courtyards.items.len()
}

// What is kept.

pub open spec fn track_kept(
    layer: Option<Seq<char>>,
    net: Option<Seq<char>>,
    region: Option<Region>,
    places: Seq<TrackEnds>,
) -> spec_fn(int, TrackView) -> Seq<usize> {
    |i: int, track: TrackView|
        if passes(layer, track.layer) && passes(net, track.net_name) && (in_region(
            places[i].start,
            region,
        ) || in_region(places[i].end, region)) {
            seq![i as usize]
        } else {
            Seq::empty()
        }
}

/// A track arc goes by its layer and its net; its place does not matter.
pub open spec fn track_arc_kept(layer: Option<Seq<char>>, net: Option<Seq<char>>) -> spec_fn(
    int,
    TrackArcView,
) -> Seq<usize> {
    |i: int, arc: TrackArcView|
        if passes(layer, arc.layer) && passes(net, arc.net_name) {
            seq![i as usize]
        } else {
            Seq::empty()
        }
}

/// Whether something on some layers is on the layer asked for.
pub open spec fn passes_layer(layer: Option<Seq<char>>, layers: Seq<Seq<char>>) -> bool {
    layer matches Some(wanted) ==> lies_on(layers, wanted)
}

fn lets_layer_through(layer: Option<&str>, layers: &Vec<String>) -> (r: bool)
    ensures
        r == passes_layer(layer.deep_view(), layers.deep_view()),
{
    match layer {
        Some(wanted) => is_on(layers, wanted),
        None => true,
    }
}

pub open spec fn pad_kept(
    layer: Option<Seq<char>>,
    net: Option<Seq<char>>,
    region: Option<Region>,
    places: Seq<Point>,
) -> spec_fn(int, PadView) -> Seq<usize> {
    |i: int, pad: PadView|
        if passes_layer(layer, pad.layers) && passes(net, pad.net_name) && in_region(
            places[i],
            region,
        ) {
            seq![i as usize]
        } else {
            Seq::empty()
        }
}

pub open spec fn via_kept(
    layer: Option<Seq<char>>,
    net: Option<Seq<char>>,
    region: Option<Region>,
    places: Seq<Point>,
) -> spec_fn(int, ViaView) -> Seq<usize> {
    |i: int, via: ViaView|
        if passes_layer(layer, via.layers) && passes(net, via.net_name) && in_region(
            places[i],
            region,
        ) {
            seq![i as usize]
        } else {
            Seq::empty()
        }
}

/// A zone goes by its layer and its net; its place does not matter.
pub open spec fn zone_kept(layer: Option<Seq<char>>, net: Option<Seq<char>>) -> spec_fn(
    int,
    PolygonView,
) -> Seq<usize> {
    |i: int, zone: PolygonView|
        if passes(layer, zone.layer) && (net matches Some(wanted) ==> zone.net_name == Some(
            wanted,
        )) {
            seq![i as usize]
        } else {
            Seq::empty()
        }
}

/// Whether any corner of any polygon lies in a region.
pub open spec fn any_in_region(polygons: Seq<Vec<Vec<Point>>>, i: int, region: Region) -> bool {
    exists|k: int, c: int|
        0 <= k < polygons[i]@.len() && 0 <= c < polygons[i]@[k]@.len() && in_region(
            #[trigger] polygons[i]@[k]@[c],
            Some(region),
        )
}

/// A courtyard goes by its place alone.
pub open spec fn courtyard_kept(region: Option<Region>, places: Seq<Vec<Vec<Point>>>) -> spec_fn(
    int,
    PolygonView,
) -> Seq<usize> {
    |i: int, courtyard: PolygonView|
        if region matches Some(r) ==> any_in_region(places, i, r) {
            seq![i as usize]
        } else {
            Seq::empty()
        }
}

/// The part of a board's geometry that is asked for: the places, in their lists, of what is
/// kept. Of the track arcs `select_track_arcs` tells; all else is kept whole.
#[derive(Debug)]
pub struct Kept {
    pub tracks: Vec<usize>,
    pub pads: Vec<usize>,
    pub vias: Vec<usize>,
    pub zones: Vec<usize>,
    pub courtyards: Vec<usize>,
}

/// Whether a part is the one asked for.
pub open spec fn is_kept(
    kept: Kept,
    g: RoutingView,
    layer: Option<Seq<char>>,
    net: Option<Seq<char>>,
    region: Option<Region>,
    places: Places,
) -> bool {
    &&& kept.tracks@ == gather_indexed(
        g.tracks.items,
        track_kept(layer, net, region, places.tracks@),
    )
    &&& kept.pads@ == gather_indexed(g.pads.items, pad_kept(layer, net, region, places.pads@))
    &&& kept.vias@ == gather_indexed(g.vias.items, via_kept(layer, net, region, places.vias@))
    &&& kept.zones@ == gather_indexed(g.zones.items, zone_kept(layer, net))
    &&& kept.courtyards@ == gather_indexed(
        g.courtyards.items,
        courtyard_kept(region, places.courtyards@),
    )
}

fn keep_tracks(
    tracks: &Vec<IpcTrack>,
    layer: Option<&str>,
    net: Option<&str>,
    region: Option<Region>,
    places: &Vec<TrackEnds>,
) -> (r: Vec<usize>)
    requires
        places@.len() == tracks@.len(),
    ensures
        r@ == gather_indexed(
            tracks.deep_view(),
            track_kept(layer.deep_view(), net.deep_view(), region, places@),
        ),
{
    let ghost all = tracks.deep_view();
    let ghost pick = track_kept(layer.deep_view(), net.deep_view(), region, places@);
    let mut out: Vec<usize> = Vec::new();
    let mut i: usize = 0;
    while i < tracks.len()
        invariant
            i <= tracks@.len(),
            places@.len() == tracks@.len(),
            all == tracks.deep_view(),
            pick == track_kept(layer.deep_view(), net.deep_view(), region, places@),
            out@ == gather_indexed(all.take(i as int), pick),
        decreases tracks@.len() - i,
    {
        let track = &tracks[i];
        proof {
            assert(all[i as int] == track.deep_view());
            lemma_gather_indexed_step(all, pick, i as int);
        }
        if lets_through(layer, track.layer.as_str()) && lets_through(net, track.net_name.as_str())
            && (geometry_in_region(places[i].start, region) || geometry_in_region(
            places[i].end,
            region,
        )) {
            out.push(i);
        }
        i += 1;
    }
    assert(all.take(all.len() as int) == all);
    out
}

fn keep_pads(
    pads: &Vec<IpcPadGeometry>,
    layer: Option<&str>,
    net: Option<&str>,
    region: Option<Region>,
    places: &Vec<Point>,
) -> (r: Vec<usize>)
    requires
        places@.len() == pads@.len(),
    ensures
        r@ == gather_indexed(
            pads.deep_view(),
            pad_kept(layer.deep_view(), net.deep_view(), region, places@),
        ),
{
    let ghost all = pads.deep_view();
    let ghost pick = pad_kept(layer.deep_view(), net.deep_view(), region, places@);
    let mut out: Vec<usize> = Vec::new();
    let mut i: usize = 0;
    while i < pads.len()
        invariant
            i <= pads@.len(),
            places@.len() == pads@.len(),
            all == pads.deep_view(),
            pick == pad_kept(layer.deep_view(), net.deep_view(), region, places@),
            out@ == gather_indexed(all.take(i as int), pick),
        decreases pads@.len() - i,
    {
        let pad = &pads[i];
        proof {
            assert(all[i as int] == pad.deep_view());
            lemma_gather_indexed_step(all, pick, i as int);
        }
        if lets_layer_through(layer, &pad.layers) && lets_through(net, pad.net_name.as_str())
            && geometry_in_region(places[i], region) {
            out.push(i);
        }
        i += 1;
    }
    assert(all.take(all.len() as int) == all);
    out
}

fn keep_vias(
    vias: &Vec<IpcViaGeometry>,
    layer: Option<&str>,
    net: Option<&str>,
    region: Option<Region>,
    places: &Vec<Point>,
) -> (r: Vec<usize>)
    requires
        places@.len() == vias@.len(),
    ensures
        r@ == gather_indexed(
            vias.deep_view(),
            via_kept(layer.deep_view(), net.deep_view(), region, places@),
        ),
{
    let ghost all = vias.deep_view();
    let ghost pick = via_kept(layer.deep_view(), net.deep_view(), region, places@);
    let mut out: Vec<usize> = Vec::new();
    let mut i: usize = 0;
    while i < vias.len()
        invariant
            i <= vias@.len(),
            places@.len() == vias@.len(),
            all == vias.deep_view(),
            pick == via_kept(layer.deep_view(), net.deep_view(), region, places@),
            out@ == gather_indexed(all.take(i as int), pick),
        decreases vias@.len() - i,
    {
        let via = &vias[i];
        proof {
            assert(all[i as int] == via.deep_view());
            lemma_gather_indexed_step(all, pick, i as int);
        }
        if lets_layer_through(layer, &via.layers) && lets_through(net, via.net_name.as_str())
            && geometry_in_region(places[i], region) {
            out.push(i);
        }
        i += 1;
    }
    assert(all.take(all.len() as int) == all);
    out
}

fn keep_zones(zones: &Vec<IpcPolygonGeometry>, layer: Option<&str>, net: Option<&str>) -> (r: Vec<
    usize,
>)
    ensures
        r@ == gather_indexed(zones.deep_view(), zone_kept(layer.deep_view(), net.deep_view())),
{
    let ghost all = zones.deep_view();
    let ghost pick = zone_kept(layer.deep_view(), net.deep_view());
    let mut out: Vec<usize> = Vec::new();
    let mut i: usize = 0;
    while i < zones.len()
        invariant
            i <= zones@.len(),
            all == zones.deep_view(),
            pick == zone_kept(layer.deep_view(), net.deep_view()),
            out@ == gather_indexed(all.take(i as int), pick),
        decreases zones@.len() - i,
    {
        let zone = &zones[i];
        proof {
            assert(all[i as int] == zone.deep_view());
            lemma_gather_indexed_step(all, pick, i as int);
        }
        let net_passes = match net {
            Some(wanted) => match &zone.net_name {
                Some(name) => text::same(name.as_str(), wanted),
                None => false,
            },
            None => true,
        };
        if lets_through(layer, zone.layer.as_str()) && net_passes {
            out.push(i);
        }
        i += 1;
    }
    assert(all.take(all.len() as int) == all);
    out
}

fn touches_region(polygons: &Vec<Vec<Point>>, region: Region) -> (r: bool)
    ensures
        r == exists|k: int, c: int|
            0 <= k < polygons@.len() && 0 <= c < polygons@[k]@.len() && in_region(
                #[trigger] polygons@[k]@[c],
                Some(region),
            ),
{
    let mut k: usize = 0;
    while k < polygons.len()
        invariant
            k <= polygons@.len(),
            forall|j: int, c: int|
                0 <= j < k && 0 <= c < polygons@[j]@.len() ==> !in_region(
                    #[trigger] polygons@[j]@[c],
                    Some(region),
                ),
        decreases polygons@.len() - k,
    {
        let mut c: usize = 0;
        while c < polygons[k].len()
            invariant
                k < polygons@.len(),
                c <= polygons@[k as int]@.len(),
                forall|d: int|
                    0 <= d < c ==> !in_region(
                        #[trigger] polygons@[k as int]@[d],
                        Some(region),
                    ),
            decreases polygons@[k as int]@.len() - c,
        {
            if geometry_in_region(polygons[k][c], Some(region)) {
                return true;
            }
            c += 1;
        }
        k += 1;
    }
    false
}

fn keep_courtyards(
    courtyards: &Vec<IpcPolygonGeometry>,
    region: Option<Region>,
    places: &Vec<Vec<Vec<Point>>>,
) -> (r: Vec<usize>)
    requires
        places@.len() == courtyards@.len(),
    ensures
        r@ == gather_indexed(courtyards.deep_view(), courtyard_kept(region, places@)),
{
    let ghost all = courtyards.deep_view();
    let ghost pick = courtyard_kept(region, places@);
    let mut out: Vec<usize> = Vec::new();
    let mut i: usize = 0;
    while i < courtyards.len()
        invariant
            i <= courtyards@.len(),
            places@.len() == courtyards@.len(),
            all == courtyards.deep_view(),
            pick == courtyard_kept(region, places@),
            out@ == gather_indexed(all.take(i as int), pick),
        decreases courtyards@.len() - i,
    {
        proof {
            lemma_gather_indexed_step(all, pick, i as int);
        }
        let keep = match region {
            Some(r) => touches_region(&places[i], r),
            None => true,
        };
        proof {
            if let Some(r) = region {
                assert(keep == any_in_region(places@, i as int, r));
            }
        }
        if keep {
            out.push(i);
        }
        i += 1;
    }
    assert(all.take(all.len() as int) == all);
    out
}

/// The part of a board's geometry on a layer, of a net and in a region, as far as these are
/// given.
pub fn select_geometry(
    g: &IpcRoutingGeometry,
    layer: Option<&str>,
    net: Option<&str>,
    region: Option<Region>,
    places: &Places,
) -> (r: Kept)
    requires
        places_fit(*places, g.deep_view()),
    ensures
        is_kept(r, g.deep_view(), layer.deep_view(), net.deep_view(), region, *places),
{
    Kept {
        tracks: keep_tracks(&g.tracks.items, layer, net, region, &places.tracks),
        pads: keep_pads(&g.pads.items, layer, net, region, &places.pads),
        vias: keep_vias(&g.vias.items, layer, net, region, &places.vias),
        zones: keep_zones(&g.zones.items, layer, net),
        courtyards: keep_courtyards(&g.courtyards.items, region, &places.courtyards),
    }
}

/// The track arcs of a board on a layer and of a net, as far as these are given: their places
/// in the list.
pub fn select_track_arcs(g: &IpcRoutingGeometry, layer: Option<&str>, net: Option<&str>) -> (r:
    Vec<usize>)
    ensures
        r@ == gather_indexed(
            g.deep_view().track_arcs.items,
            track_arc_kept(layer.deep_view(), net.deep_view()),
        ),
{
    let arcs = &g.track_arcs.items;
    let ghost all = arcs.deep_view();
    let ghost pick = track_arc_kept(layer.deep_view(), net.deep_view());
    let mut out: Vec<usize> = Vec::new();
    let mut i: usize = 0;
    while i < arcs.len()
        invariant
            i <= arcs@.len(),
            all == arcs.deep_view(),
            pick == track_arc_kept(layer.deep_view(), net.deep_view()),
            out@ == gather_indexed(all.take(i as int), pick),
        decreases arcs@.len() - i,
    {
        let arc = &arcs[i];
        proof {
            assert(all[i as int] == arc.deep_view());
            lemma_gather_indexed_step(all, pick, i as int);
        }
        if lets_through(layer, arc.layer.as_str()) && lets_through(net, arc.net_name.as_str()) {
            out.push(i);
        }
        i += 1;
    }
    assert(all.take(all.len() as int) == all);
    out
}

// What a filter promises.

/// Whether a list has, in order and each once, the places of all items that pass a test.
pub open spec fn picks<A>(kept: Seq<usize>, items: Seq<A>, test: spec_fn(int, A) -> bool) -> bool {
    &&& forall|k: int|
        0 <= k < kept.len() ==> (#[trigger] kept[k]) < items.len() && test(
            kept[k] as int,
            items[kept[k] as int],
        )
    &&& forall|i: int|
        0 <= i < items.len() && test(i, #[trigger] items[i]) ==> kept.contains(i as usize)
    &&& forall|k: int, l: int| 0 <= k < l < kept.len() ==> kept[k] < kept[l]
}

pub(crate) proof fn lemma_picks<A>(
    items: Seq<A>,
    pick: spec_fn(int, A) -> Seq<usize>,
    test: spec_fn(int, A) -> bool,
)
    requires
        items.len() <= usize::MAX,
        forall|i: int, a: A|
            #[trigger] pick(i, a) == (if test(i, a) {
                seq![i as usize]
            } else {
                Seq::empty()
            }),
    ensures
        picks(gather_indexed(items, pick), items, test),
    decreases items.len(),
{
    if items.len() > 0 {
        let init = items.drop_last();
        let last = items.len() - 1;
        lemma_picks(init, pick, test);
        let before = gather_indexed(init, pick);
        let kept = gather_indexed(items, pick);
        assert(kept == before + pick(last, items.last()));
        assert forall|k: int| 0 <= k < kept.len() implies (#[trigger] kept[k]) < items.len()
            && test(kept[k] as int, items[kept[k] as int]) by {
            if k < before.len() {
                assert(kept[k] == before[k]);
                assert(init[before[k] as int] == items[before[k] as int]);
            }
        }
        assert forall|i: int| 0 <= i < items.len() && test(i, #[trigger] items[i]) implies
            kept.contains(i as usize) by {
            if i < last {
                assert(init[i] == items[i]);
                let k = choose|k: int| 0 <= k < before.len() && before[k] == i as usize;
                assert(kept[k] == i as usize);
            } else {
                assert(kept[before.len() as int] == i as usize);
            }
        }
        assert forall|k: int, l: int| 0 <= k < l < kept.len() implies kept[k] < kept[l] by {
            assert(kept[k] == before[k]);
            if l < before.len() {
                assert(kept[l] == before[l]);
            }
        }
    }
}

/// A layer and a net narrow a board's geometry to what matches both, in order, and drop
/// nothing that does: tracks, track arcs and zones of that layer and net, and pads and vias of
/// that net on that layer or on no stated one.
pub proof fn filters_keep_just_what_matches(
    kept: Kept,
    arcs: Vec<usize>,
    g: IpcRoutingGeometry,
    layer: Seq<char>,
    net: Seq<char>,
    places: Places,
)
    requires
        is_kept(kept, g.deep_view(), Some(layer), Some(net), None, places),
        arcs@ == gather_indexed(
            g.deep_view().track_arcs.items,
            track_arc_kept(Some(layer), Some(net)),
        ),
    ensures
        picks(
            kept.tracks@,
            g.deep_view().tracks.items,
            |i: int, t: TrackView| t.layer == layer && t.net_name == net,
        ),
        picks(
            arcs@,
            g.deep_view().track_arcs.items,
            |i: int, a: TrackArcView| a.layer == layer && a.net_name == net,
        ),
        picks(
            kept.pads@,
            g.deep_view().pads.items,
            |i: int, p: PadView| lies_on(p.layers, layer) && p.net_name == net,
        ),
        picks(
            kept.vias@,
            g.deep_view().vias.items,
            |i: int, v: ViaView| lies_on(v.layers, layer) && v.net_name == net,
        ),
        picks(
            kept.zones@,
            g.deep_view().zones.items,
            |i: int, z: PolygonView| z.layer == layer && z.net_name == Some(net),
        ),
{
    let view = g.deep_view();
    assert(view.tracks.items.len() == g.tracks.items.len());
    assert(view.track_arcs.items.len() == g.track_arcs.items.len());
    assert(view.pads.items.len() == g.pads.items.len());
    assert(view.vias.items.len() == g.vias.items.len());
    assert(view.zones.items.len() == g.zones.items.len());
    lemma_picks(
        view.tracks.items,
        track_kept(Some(layer), Some(net), None, places.tracks@),
        |i: int, t: TrackView| t.layer == layer && t.net_name == net,
    );
    lemma_picks(
        view.track_arcs.items,
        track_arc_kept(Some(layer), Some(net)),
        |i: int, a: TrackArcView| a.layer == layer && a.net_name == net,
    );
    lemma_picks(
        view.pads.items,
        pad_kept(Some(layer), Some(net), None, places.pads@),
        |i: int, p: PadView| lies_on(p.layers, layer) && p.net_name == net,
    );
    lemma_picks(
        view.vias.items,
        via_kept(Some(layer), Some(net), None, places.vias@),
        |i: int, v: ViaView| lies_on(v.layers, layer) && v.net_name == net,
    );
    lemma_picks(
        view.zones.items,
        zone_kept(Some(layer), Some(net)),
        |i: int, z: PolygonView| z.layer == layer && z.net_name == Some(net),
    );
}

/// Without filters every track arc is kept.
pub proof fn no_filter_keeps_every_track_arc(arcs: Seq<usize>, g: RoutingView)
    requires
        arcs == gather_indexed(g.track_arcs.items, track_arc_kept(None, None)),
    ensures
        arcs == Seq::new(g.track_arcs.items.len(), |i: int| i as usize),
{
    lemma_all_kept(g.track_arcs.items, track_arc_kept(None, None));
}

/// Without filters everything is kept.
pub proof fn no_filter_keeps_everything(kept: Kept, g: RoutingView, places: Places)
    requires
        is_kept(kept, g, None, None, None, places),
    ensures
        kept.tracks@ == Seq::new(g.tracks.items.len(), |i: int| i as usize),
        kept.pads@ == Seq::new(g.pads.items.len(), |i: int| i as usize),
        kept.vias@ == Seq::new(g.vias.items.len(), |i: int| i as usize),
        kept.zones@ == Seq::new(g.zones.items.len(), |i: int| i as usize),
        kept.courtyards@ == Seq::new(g.courtyards.items.len(), |i: int| i as usize),
{
    lemma_all_kept(g.tracks.items, track_kept(None, None, None, places.tracks@));
    lemma_all_kept(g.pads.items, pad_kept(None, None, None, places.pads@));
    lemma_all_kept(g.vias.items, via_kept(None, None, None, places.vias@));
    lemma_all_kept(g.zones.items, zone_kept(None, None));
    lemma_all_kept(g.courtyards.items, courtyard_kept(None, places.courtyards@));
}

proof fn lemma_all_kept<A>(items: Seq<A>, pick: spec_fn(int, A) -> Seq<usize>)
    requires
        forall|i: int, a: A| #[trigger] pick(i, a) == seq![i as usize],
    ensures
        gather_indexed(items, pick) == Seq::new(items.len(), |i: int| i as usize),
    decreases items.len(),
{
    if items.len() > 0 {
        lemma_all_kept(items.drop_last(), pick);
        assert(pick(items.len() - 1, items.last()) == seq![(items.len() - 1) as usize]);
    }
    assert(gather_indexed(items, pick) =~= Seq::new(items.len(), |i: int| i as usize));
}

} // verus!
