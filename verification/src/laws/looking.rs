//! Which board is looked at, and which part of it.

use crate::board::{IpcRoutingGeometry, PadView, PolygonView, TrackArcView, TrackView, ViaView};
use crate::error::CauseView;
use crate::gather::gather_indexed;
use crate::inspect::{in_region, is_kept, lemma_picks, picks, track_arc_kept, Kept, Places};
use crate::json::Region;
use crate::messages::{
    ComponentView, DocumentIdentifier, DocumentSpecifier, OpenDocument, PathFacts, Response,
};
use crate::scalar::Point;
use crate::session::{board_path, open_board, same_board};
use crate::step::{Progress, Reply};
use vstd::prelude::*;

verus! {

// Boards.

/// A document is a board where it has a board's file name; its path is that name, taken from
/// the project's path where the project has one.
pub proof fn a_board_has_its_file_name<'a>(document: DocumentSpecifier)
    ensures
        match (document.identifier, board_path::<'a>(document)) {
            (Some(DocumentIdentifier::BoardFilename(name)), Some(path)) => {
                &&& path.file@ == name@
                &&& match (path.base, document.project) {
                    (Some(base), Some(project)) => base@ == project.path@ && base@.len() > 0,
                    (None, Some(project)) => project.path@.len() == 0,
                    (None, None) => true,
                    (Some(_), None) => false,
                }
            },
            (Some(DocumentIdentifier::BoardFilename(_)), None) => false,
            (_, Some(_)) => false,
            _ => true,
        },
{
}

/// Where the file system does not know both paths, they name one board just where they have the
/// same components; of two single components only the names count.
pub proof fn paths_are_compared_by_their_components(a: PathFacts, b: PathFacts)
    requires
        a.canonical is None || b.canonical is None,
    ensures
        b.components@.len() != 1 ==> (same_board(a, b) <==> a.components@.len()
            == b.components@.len() && forall|i: int|
            0 <= i < a.components@.len() ==> (#[trigger] a.components@[i]).deep_view()
                == b.components@[i].deep_view()),
        b.components@.len() == 1 ==> (same_board(a, b) <==> a.components@.len() == 1 && match (
            a.components@[0].deep_view(),
            b.components@[0].deep_view(),
        ) {
            (ComponentView::Normal(wanted), ComponentView::Normal(given)) => wanted == given,
            (ComponentView::Normal(_), _) => false,
            (_, ComponentView::Normal(_)) => false,
            _ => true,
        }),
{
    let (wanted, given) = (a.components.deep_view(), b.components.deep_view());
    assert(wanted.len() == a.components@.len() && given.len() == b.components@.len());
    if forall|i: int|
        0 <= i < a.components@.len() ==> (#[trigger] a.components@[i]).deep_view()
            == b.components@[i].deep_view() {
        if wanted.len() == given.len() {
            assert forall|i: int| 0 <= i < wanted.len() implies wanted[i] == given[i] by {
                assert(a.components@[i].deep_view() == b.components@[i].deep_view());
            }
            assert(wanted =~= given);
        }
    }
    if wanted == given {
        assert forall|i: int| 0 <= i < a.components@.len() implies (
        #[trigger] a.components@[i]).deep_view() == b.components@[i].deep_view() by {
            assert(wanted[i] == given[i]);
        }
    }
}

/// Whether an open document is the board that is asked for.
pub open spec fn is_wanted(document: OpenDocument, requested: PathFacts) -> bool {
    &&& document.document.identifier matches Some(DocumentIdentifier::BoardFilename(_))
    &&& same_board(requested, document.place)
}

/// Whether an open document is the first one that is.
pub open spec fn is_first_wanted(
    documents: Seq<OpenDocument>,
    requested: PathFacts,
    k: int,
) -> bool {
    &&& 0 <= k < documents.len() && is_wanted(documents[k], requested)
    &&& forall|j: int| 0 <= j < k ==> !is_wanted(#[trigger] documents[j], requested)
}

proof fn lemma_requested_from(documents: Seq<OpenDocument>, requested: PathFacts, i: int)
    requires
        0 <= i <= documents.len(),
        forall|j: int| 0 <= j < i ==> !is_wanted(#[trigger] documents[j], requested),
    ensures
        match crate::session::requested_from(documents, requested, i) {
            Some(k) => is_first_wanted(documents, requested, k),
            None => forall|j: int|
                0 <= j < documents.len() ==> !is_wanted(#[trigger] documents[j], requested),
        },
    decreases documents.len() - i,
{
    if i < documents.len() && !is_wanted(documents[i], requested) {
        lemma_requested_from(documents, requested, i + 1);
    }
}

/// The board that is asked for is the first open document that is it; where there is none, the
/// operation fails. Without an open document it fails with what to do.
pub proof fn the_first_wanted_board_is_taken<'a>(
    requested: PathFacts,
    replies: Seq<Reply>,
    at: int,
    documents: Vec<OpenDocument>,
)
    requires
        0 <= at < replies.len(),
        replies[at] == Reply::Payload(Response::OpenDocuments(documents)),
    ensures
        match open_board::<'a>(requested, replies, at) {
            Progress::Done(Ok(document), used) => used == at + 1 && exists|k: int|
                #[trigger] is_first_wanted(documents@, requested, k) && document
                    == documents@[k].document,
            Progress::Done(Err(causes), used) => {
                &&& used == at + 1 && causes.len() == 1
                &&& forall|j: int|
                    0 <= j < documents@.len() ==> !is_wanted(#[trigger] documents@[j], requested)
                &&& documents@.len() == 0 ==> causes[0] == CauseView::Text(
                    "No PCB document is open in KiCAD. Open a board file first."@,
                )
            },
            Progress::Next(_) => false,
        },
{
    lemma_requested_from(documents@, requested, 0);
}

// Parts of a board.

/// A point lies in a region where neither coordinate is beyond the region's own bounds.
pub proof fn a_region_reaches_from_corner_to_corner(p: Point, r: Region)
    ensures
        in_region(p, None),
        in_region(p, Some(r)) <==> r.x_min.at_most(p.x) && p.x.at_most(r.x_max) && r.y_min.at_most(
            p.y,
        ) && p.y.at_most(r.y_max),
{
}

/// Whether a name is the one asked for, where one is asked for.
pub open spec fn is_asked(asked: Option<Seq<char>>, name: Seq<char>) -> bool {
    match asked {
        Some(own) => name == own,
        None => true,
    }
}

/// Whether something is on the layer asked for, where one is asked for: the layer is among its
/// own, or it states none.
pub open spec fn is_on_asked(asked: Option<Seq<char>>, layers: Seq<Seq<char>>) -> bool {
    match asked {
        Some(own) => layers.len() == 0 || layers.contains(own),
        None => true,
    }
}

/// Whether a point is in the region asked for, where one is asked for.
pub open spec fn is_within_asked(asked: Option<Region>, p: Point) -> bool {
    match asked {
        Some(r) => r.x_min.at_most(p.x) && p.x.at_most(r.x_max) && r.y_min.at_most(p.y)
            && p.y.at_most(r.y_max),
        None => true,
    }
}

/// Whether some corner is in the region asked for, where one is asked for.
pub open spec fn has_corner_within(asked: Option<Region>, polygons: Seq<Vec<Point>>) -> bool {
    asked is None || exists|k: int, c: int|
        0 <= k < polygons.len() && 0 <= c < polygons[k]@.len() && is_within_asked(
            asked,
            #[trigger] polygons[k]@[c],
        )
}

/// What is kept of a board is, in order and without a gap, just what matches whichever of
/// layer, net and region are asked for: a track with one end in the region, a pad or a via at
/// its place, a courtyard with any corner, and an arc or a zone wherever it is.
pub proof fn just_what_is_asked_for_is_kept(
    kept: Kept,
    arcs: Seq<usize>,
    g: IpcRoutingGeometry,
    layer: Option<Seq<char>>,
    net: Option<Seq<char>>,
    region: Option<Region>,
    places: Places,
)
    requires
        is_kept(kept, g.deep_view(), layer, net, region, places),
        arcs == gather_indexed(g.deep_view().track_arcs.items, track_arc_kept(layer, net)),
    ensures
        picks(
            kept.tracks@,
            g.deep_view().tracks.items,
            |i: int, t: TrackView|
                is_asked(layer, t.layer) && is_asked(net, t.net_name) && (is_within_asked(
                    region,
                    places.tracks@[i].start,
                ) || is_within_asked(region, places.tracks@[i].end)),
        ),
        picks(
            arcs,
            g.deep_view().track_arcs.items,
            |i: int, a: TrackArcView| is_asked(layer, a.layer) && is_asked(net, a.net_name),
        ),
        picks(
            kept.pads@,
            g.deep_view().pads.items,
            |i: int, p: PadView|
                is_on_asked(layer, p.layers) && is_asked(net, p.net_name) && is_within_asked(
                    region,
                    places.pads@[i],
                ),
        ),
        picks(
            kept.vias@,
            g.deep_view().vias.items,
            |i: int, v: ViaView|
                is_on_asked(layer, v.layers) && is_asked(net, v.net_name) && is_within_asked(
                    region,
                    places.vias@[i],
                ),
        ),
        picks(
            kept.zones@,
            g.deep_view().zones.items,
            |i: int, z: PolygonView|
                is_asked(layer, z.layer) && (net is None || z.net_name == net),
        ),
        picks(
            kept.courtyards@,
            g.deep_view().courtyards.items,
            |i: int, c: PolygonView| has_corner_within(region, places.courtyards@[i]@),
        ),
{
    let v = g.deep_view();
    assert(v.tracks.items.len() == g.tracks.items.len());
    assert(v.track_arcs.items.len() == g.track_arcs.items.len());
    assert(v.pads.items.len() == g.pads.items.len());
    assert(v.vias.items.len() == g.vias.items.len());
    assert(v.zones.items.len() == g.zones.items.len());
    assert(v.courtyards.items.len() == g.courtyards.items.len());
    lemma_picks(
        v.tracks.items,
        crate::inspect::track_kept(layer, net, region, places.tracks@),
        |i: int, t: TrackView|
            is_asked(layer, t.layer) && is_asked(net, t.net_name) && (is_within_asked(
                region,
                places.tracks@[i].start,
            ) || is_within_asked(region, places.tracks@[i].end)),
    );
    lemma_picks(
        v.track_arcs.items,
        track_arc_kept(layer, net),
        |i: int, a: TrackArcView| is_asked(layer, a.layer) && is_asked(net, a.net_name),
    );
    lemma_picks(
        v.pads.items,
        crate::inspect::pad_kept(layer, net, region, places.pads@),
        |i: int, p: PadView|
            is_on_asked(layer, p.layers) && is_asked(net, p.net_name) && is_within_asked(
                region,
                places.pads@[i],
            ),
    );
    lemma_picks(
        v.vias.items,
        crate::inspect::via_kept(layer, net, region, places.vias@),
        |i: int, v: ViaView|
            is_on_asked(layer, v.layers) && is_asked(net, v.net_name) && is_within_asked(
                region,
                places.vias@[i],
            ),
    );
    lemma_picks(
        v.zones.items,
        crate::inspect::zone_kept(layer, net),
        |i: int, z: PolygonView| is_asked(layer, z.layer) && (net is None || z.net_name == net),
    );
    assert forall|i: int|
        (region matches Some(r) ==> crate::inspect::any_in_region(places.courtyards@, i, r))
            <==> has_corner_within(region, #[trigger] places.courtyards@[i]@) by {
        if let Some(r) = region {
            let polygons = places.courtyards@[i]@;
            if crate::inspect::any_in_region(places.courtyards@, i, r) {
                let (k, c) = choose|k: int, c: int|
                    0 <= k < polygons.len() && 0 <= c < polygons[k]@.len() && in_region(
                        #[trigger] polygons[k]@[c],
                        Some(r),
                    );
                assert(is_within_asked(region, polygons[k]@[c]));
            }
            if has_corner_within(region, polygons) {
                let (k, c) = choose|k: int, c: int|
                    0 <= k < polygons.len() && 0 <= c < polygons[k]@.len() && is_within_asked(
                        region,
                        #[trigger] polygons[k]@[c],
                    );
                assert(in_region(places.courtyards@[i]@[k]@[c], Some(r)));
            }
        }
    }
    lemma_picks(
        v.courtyards.items,
        crate::inspect::courtyard_kept(region, places.courtyards@),
        |i: int, c: PolygonView| has_corner_within(region, places.courtyards@[i]@),
    );
}

/// A list of places is in order and has each place once that passes the test, and no other.
pub proof fn a_list_of_places_misses_none<A>(
    kept: Seq<usize>,
    items: Seq<A>,
    test: spec_fn(int, A) -> bool,
)
    requires
        picks(kept, items, test),
        items.len() <= usize::MAX,
    ensures
        forall|i: int|
            0 <= i < items.len() ==> (kept.contains(i as usize) <==> test(i, #[trigger] items[i])),
        forall|k: int| 0 <= k < kept.len() ==> (#[trigger] kept[k]) < items.len(),
        forall|k: int, l: int| 0 <= k < l < kept.len() ==> kept[k] < kept[l],
{
    assert forall|i: int| 0 <= i < items.len() && kept.contains(i as usize) implies test(
        i,
        #[trigger] items[i],
    ) by {
        let k = choose|k: int| 0 <= k < kept.len() && kept[k] == i as usize;
        assert(kept[k] as int == i);
    }
}

} // verus!
