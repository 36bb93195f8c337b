//! What is asked of a caller, and no more.

use crate::board::RoutingView;
use crate::board_file::netclass_place_is_sound;
use crate::clearance::{route_fits, segment_fits, RouteMeasures, SegmentMeasures};
use crate::footprint_item::{
    fits, IpcGraphicDefinition, IpcPadDefinition, Placement,
};
use crate::inspect::{places_fit, Places};
use crate::laws::files::{first_stands_at, stands_at};
use crate::route_check::{corridor_fits, CorridorMeasures};
use crate::via_check::{via_fits, ViaMeasures};
use vstd::prelude::*;

verus! {

/// A segment is measured where there is one gap for each thing on the board, and one for each
/// edge of each polygon of each courtyard: one fewer than the polygon has corners.
pub proof fn a_segment_needs_one_gap_for_each_thing(m: SegmentMeasures, g: RoutingView)
    requires
        m.tracks@.len() == g.tracks.items.len(),
        m.pads@.len() == g.pads.items.len(),
        m.vias@.len() == g.vias.items.len(),
        m.edges@.len() == g.board_edges.items.len(),
        m.courtyards@.len() == g.courtyards.items.len(),
        forall|i: int|
            0 <= i < m.courtyards@.len() ==> (#[trigger] m.courtyards@[i])@.len()
                == g.courtyards.items[i].polygons.len(),
        forall|i: int, k: int|
            0 <= i < m.courtyards@.len() && 0 <= k < m.courtyards@[i]@.len() ==> {
                let gaps = (#[trigger] m.courtyards@[i]@[k]).edge_gaps@.len();
                let corners = g.courtyards.items[i].polygons[k].len();
                if corners == 0 {
                    gaps == 0
                } else {
                    gaps + 1 == corners
                }
            },
    ensures
        segment_fits(m, g),
{
}

/// A route is measured where each of its segments is, and each pad has a box and its distances
/// from both ends.
pub proof fn a_route_needs_its_segments_and_pads(m: RouteMeasures, g: RoutingView)
    requires
        m.pad_boxes@.len() == g.pads.items.len(),
        m.start_distances@.len() == g.pads.items.len(),
        m.end_distances@.len() == g.pads.items.len(),
        forall|s: int| 0 <= s < m.segments@.len() ==> segment_fits(#[trigger] m.segments@[s], g),
    ensures
        route_fits(m, g),
{
}

/// The corridor of a route, a via, and places are measured where there is one measure for each
/// thing that they are about.
pub proof fn corridors_vias_and_places_need_one_measure_each(
    corridor: CorridorMeasures,
    hole: ViaMeasures,
    places: Places,
    g: RoutingView,
)
    ensures
        corridor.pad_boxes@.len() == g.pads.items.len() && corridor.arc_boxes@.len()
            == g.track_arcs.items.len() && corridor.zones@.len() == g.zones.items.len() && (forall|
            i: int,
        |
            0 <= i < corridor.zones@.len() ==> (#[trigger] corridor.zones@[i])@.len()
                == g.zones.items[i].polygons.len()) ==> corridor_fits(corridor, g),
        hole.pads@.len() == g.pads.items.len() && hole.tracks@.len() == g.tracks.items.len()
            && hole.vias@.len() == g.vias.items.len() && hole.edges@.len()
            == g.board_edges.items.len() && hole.zones@.len() == g.zones.items.len() && (forall|
            i: int,
        |
            0 <= i < hole.zones@.len() ==> (#[trigger] hole.zones@[i])@.len()
                == g.zones.items[i].polygons.len()) ==> via_fits(hole, g),
        places.tracks@.len() == g.tracks.items.len() && places.pads@.len() == g.pads.items.len()
            && places.vias@.len() == g.vias.items.len() && places.courtyards@.len()
            == g.courtyards.items.len() ==> places_fit(places, g),
{
}

/// How many points of a graphic are to be placed.
pub open spec fn point_count(graphic: IpcGraphicDefinition, cardinal: bool) -> nat {
    match graphic {
        IpcGraphicDefinition::Line { .. } => 2,
        IpcGraphicDefinition::Rect { .. } => if cardinal {
            2
        } else {
            4
        },
        IpcGraphicDefinition::Circle { .. } => 1,
        IpcGraphicDefinition::Arc { .. } => 3,
        IpcGraphicDefinition::Poly { points, .. } => points@.len(),
        IpcGraphicDefinition::Text { .. } => 1,
    }
}

/// A footprint is placed where each pad and each graphic is: a pad with a number for each of
/// its layers and a drill where it has one, a graphic with each of its points.
pub proof fn a_placement_needs_each_pad_and_graphic(
    placement: Placement,
    pads: Seq<IpcPadDefinition>,
    graphics: Seq<IpcGraphicDefinition>,
)
    requires
        placement.pads@.len() == pads.len(),
        placement.graphics@.len() == graphics.len(),
        forall|i: int|
            0 <= i < pads.len() ==> (#[trigger] placement.pads@[i]).layer_codes@.len()
                == pads[i].layers@.len() && (placement.pads@[i].drill is Some <==> pads[i].drill_x
                is Some),
        forall|i: int|
            0 <= i < graphics.len() ==> (#[trigger] placement.graphics@[i]).points@.len()
                == point_count(graphics[i], placement.cardinal),
    ensures
        fits(placement, pads, graphics),
{
}

/// A net class can be added to every file but one whose block of net classes is closed nowhere
/// and whose last character takes several bytes.
pub proof fn a_net_class_can_be_added_to_nearly_every_file(content: Seq<char>, block: int, j: int)
    ensures
        (forall|i: int| !#[trigger] stands_at(content, "(net_classes"@, i))
            ==> netclass_place_is_sound(content),
        first_stands_at(content, "(net_classes"@, 0, block) && block <= j && stands_at(
            content,
            ")"@,
            j,
        ) ==> netclass_place_is_sound(content),
        content.len() > 0 && (content.last() as u32) < 128 ==> netclass_place_is_sound(content),
{
    assert(content.skip(0) =~= content);
    crate::laws::files::lemma_found(content, "(net_classes"@, 0);
    if first_stands_at(content, "(net_classes"@, 0, block) {
        assert(stands_at(content, "(net_classes"@, block));
        let k = crate::text::find(content, "(net_classes"@)->Some_0;
        assert(crate::text::find(content, "(net_classes"@) is Some);
        assert(k == block) by {
            assert(first_stands_at(content, "(net_classes"@, 0, k));
            assert(stands_at(content, "(net_classes"@, k));
        }
        crate::laws::files::lemma_found(content, ")"@, block);
    }
}

} // verus!
