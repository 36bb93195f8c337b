//! Outlines, and the rule areas of a board.

use crate::board::{IpcRuleArea, RuleAreaView};
use crate::envelope::KiCadIpcClient;
use crate::gather::{gather, lemma_gather_source, lemma_gather_step, optional};
use crate::identity::{copy_reference, reference_if_any};
use crate::items::{
    as_child_zone, as_footprint, as_zone, child_zone_of, children_of, footprint_of, zone_of,
};
use crate::layers::{layer_names, name_layers};
use crate::messages::{
    ChildItem, Geometry, GraphicShape, Item, ItemKind, PolyLine, PolyLineNode, PolySet,
    PolygonWithHoles, Vector2, Zone, ZoneSettings,
};
use crate::session::items_of;
use crate::step::{joined_lists, judged, Progress, Reply, Step};
use crate::text;
use crate::text::{copy_option, copy_or_empty, finishes_with, text_or_empty};
use vstd::prelude::*;
use vstd::string::*;

verus! {

// Outlines.

/// The point of a node. An arc cannot be told by straight lines and gives none.
pub open spec fn node_point(node: PolyLineNode) -> Seq<Vector2> {
    match node {
        PolyLineNode::Point(p) => seq![p],
        _ => Seq::empty(),
    }
}

pub open spec fn line_points(line: PolyLine) -> Seq<Vector2> {
    gather(line.nodes@, |node: PolyLineNode| node_point(node))
}

pub open spec fn outline_points(polygon: PolygonWithHoles) -> Seq<Seq<Vector2>> {
    match polygon.outline {
        Some(line) => seq![line_points(line)],
        None => Seq::empty(),
    }
}

/// The outlines of a set of polygons, without its holes.
pub open spec fn set_points(set: PolySet) -> Seq<Seq<Vector2>> {
    gather(set.polygons@, |polygon: PolygonWithHoles| outline_points(polygon))
}

pub open spec fn optional_set_points(set: Option<PolySet>) -> Seq<Seq<Vector2>> {
    match set {
        Some(s) => set_points(s),
        None => Seq::empty(),
    }
}

/// The corners of the rectangle between two opposite ones, all the way round.
pub open spec fn rectangle_points(a: Vector2, b: Vector2) -> Seq<Vector2> {
    seq![a, Vector2 { x_nm: b.x_nm, y_nm: a.y_nm }, b, Vector2 { x_nm: a.x_nm, y_nm: b.y_nm }]
}

/// A shape as straight lines, where it is a segment, a rectangle or a polygon.
pub open spec fn shape_points(shape: Option<GraphicShape>) -> Option<Seq<Vector2>> {
    match shape {
        Some(s) => match s.geometry {
            Some(Geometry::Segment { start: Some(start), end: Some(end) }) => Some(
                seq![start, end],
            ),
            Some(
                Geometry::Rectangle { top_left: Some(a), bottom_right: Some(b) },
            ) => Some(rectangle_points(a, b)),
            Some(Geometry::Polygon(set)) => if set_points(set).len() == 0 {
                None
            } else {
                Some(set_points(set)[0])
            },
            _ => None,
        },
        None => None,
    }
}

pub proof fn lemma_points_are_plain(points: Vec<Vector2>)
    ensures
        points.deep_view() == points@,
{
    assert(points.deep_view() =~= points@);
}

/// The points of an outline.
pub fn polyline_points(line: &PolyLine) -> (r: Vec<Vector2>)
    ensures
        r@ == line_points(*line),
{
    let ghost all = line.nodes@;
    let ghost pick = |node: PolyLineNode| node_point(node);
    let mut out: Vec<Vector2> = Vec::new();
    let mut i: usize = 0;
    while i < line.nodes.len()
        invariant
            i <= line.nodes@.len(),
            all == line.nodes@,
            pick == (|node: PolyLineNode| node_point(node)),
            out@ == gather(all.take(i as int), pick),
        decreases line.nodes@.len() - i,
    {
        proof {
            lemma_gather_step(all, pick, i as int);
        }
        if let PolyLineNode::Point(p) = line.nodes[i] {
            let ghost before = out@;
            out.push(p);
            assert(out@ == before + node_point(all[i as int]));
        }
        i += 1;
    }
    assert(all.take(all.len() as int) == all);
    out
}

fn outlines_of(set: &PolySet) -> (r: Vec<Vec<Vector2>>)
    ensures
        r.deep_view() == set_points(*set),
{
    let ghost all = set.polygons@;
    let ghost pick = |polygon: PolygonWithHoles| outline_points(polygon);
    let mut out: Vec<Vec<Vector2>> = Vec::new();
    let mut i: usize = 0;
    assert(out.deep_view() == Seq::<Seq<Vector2>>::empty());
    while i < set.polygons.len()
        invariant
            i <= set.polygons@.len(),
            all == set.polygons@,
            pick == (|polygon: PolygonWithHoles| outline_points(polygon)),
            out.deep_view() == gather(all.take(i as int), pick),
        decreases set.polygons@.len() - i,
    {
        proof {
            lemma_gather_step(all, pick, i as int);
        }
        if let Some(line) = &set.polygons[i].outline {
            let ghost before = out.deep_view();
            let points = polyline_points(line);
            proof {
                lemma_points_are_plain(points);
            }
            out.push(points);
            assert(out.deep_view() == before + outline_points(all[i as int]));
        }
        i += 1;
    }
    assert(all.take(all.len() as int) == all);
    out
}

/// The outlines of a set of polygons, without its holes.
pub fn polyset_points(set: &Option<PolySet>) -> (r: Vec<Vec<Vector2>>)
    ensures
        r.deep_view() == optional_set_points(*set),
{
    match set {
        Some(s) => outlines_of(s),
        None => {
            let none: Vec<Vec<Vector2>> = Vec::new();
            assert(none.deep_view() == Seq::<Seq<Vector2>>::empty());
            none
        },
    }
}

/// A shape as straight lines, where it is a segment, a rectangle or a polygon.
pub fn graphic_shape_points(shape: &Option<GraphicShape>) -> (r: Option<Vec<Vector2>>)
    ensures
        r.deep_view() == shape_points(*shape),
{
    let geometry = match shape {
        Some(s) => match &s.geometry {
            Some(geometry) => geometry,
            None => {
                return None;
            },
        },
        None => {
            return None;
        },
    };
    match geometry {
        Geometry::Segment { start: Some(start), end: Some(end) } => {
            let points = vec![*start, *end];
            assert(points.deep_view() == seq![*start, *end]);
            Some(points)
        },
        Geometry::Rectangle { top_left: Some(a), bottom_right: Some(b) } => {
            let points = vec![
                *a,
                Vector2 { x_nm: b.x_nm, y_nm: a.y_nm },
                *b,
                Vector2 { x_nm: a.x_nm, y_nm: b.y_nm },
            ];
            assert(points.deep_view() == rectangle_points(*a, *b));
            Some(points)
        },
        Geometry::Polygon(set) => {
            let mut outlines = outlines_of(set);
            if outlines.len() == 0 {
                None
            } else {
                assert(outlines@[0].deep_view() == set_points(*set)[0]);
                Some(outlines.swap_remove(0))
            }
        },
        _ => None,
    }
}

pub fn copy_points(points: &Vec<Vector2>) -> (r: Vec<Vector2>)
    ensures
        r@ == points@,
{
    let mut out: Vec<Vector2> = Vec::new();
    let mut i: usize = 0;
    while i < points.len()
        invariant
            i <= points@.len(),
            out@ == points@.take(i as int),
        decreases points@.len() - i,
    {
        out.push(points[i]);
        i += 1;
    }
    assert(points@.take(points@.len() as int) == points@);
    out
}

pub fn copy_outlines(outlines: &Vec<Vec<Vector2>>) -> (r: Vec<Vec<Vector2>>)
    ensures
        r.deep_view() == outlines.deep_view(),
{
    let mut out: Vec<Vec<Vector2>> = Vec::new();
    let mut i: usize = 0;
    while i < outlines.len()
        invariant
            i <= outlines@.len(),
            out@.len() == i,
            forall|j: int| 0 <= j < i ==> (#[trigger] out@[j])@ == outlines@[j]@,
        decreases outlines@.len() - i,
    {
        out.push(copy_points(&outlines[i]));
        i += 1;
    }
    assert forall|j: int| 0 <= j < out@.len() implies (#[trigger] out@[j]).deep_view()
        == outlines@[j].deep_view() by {
        lemma_points_are_plain(out@[j]);
        lemma_points_are_plain(outlines@[j]);
    }
    assert(out.deep_view() =~= outlines.deep_view());
    out
}

// Rule areas.

/// A zone as a rule area, where it is one and lies on the layer asked for.
pub open spec fn rule_area(
    zone: Zone,
    layer: Option<Seq<char>>,
    owner: Seq<char>,
    footprint_kiid: Option<Seq<char>>,
    footprint_reference: Option<Seq<char>>,
) -> Option<RuleAreaView> {
    match zone.settings {
        Some(ZoneSettings::RuleArea(settings)) => if layer matches Some(wanted)
            && !layer_names(zone.layers@).contains(wanted) {
            None
        } else {
            Some(
                RuleAreaView {
                    kiid: text_or_empty(zone.id),
                    name: zone.name@,
                    layers: layer_names(zone.layers@),
                    bounds: optional_set_points(zone.outline),
                    keepout_copper: settings.keepout_copper,
                    keepout_vias: settings.keepout_vias,
                    keepout_tracks: settings.keepout_tracks,
                    keepout_pads: settings.keepout_pads,
                    keepout_footprints: settings.keepout_footprints,
                    owner,
                    footprint_kiid,
                    footprint_reference,
                },
            )
        },
        _ => None,
    }
}

/// The rule area that a zone on the board is. A zone that does not decode is passed over.
pub open spec fn board_rule_area(layer: Option<Seq<char>>) -> spec_fn(Item) -> Seq<RuleAreaView> {
    |item: Item|
        match as_zone(item) {
            Ok(zone) => optional(rule_area(zone, layer, "board"@, None, None)),
            Err(_) => Seq::empty(),
        }
}

/// The rule area that a footprint's child is.
pub open spec fn child_rule_area(
    layer: Option<Seq<char>>,
    kiid: Option<Seq<char>>,
    reference: Option<Seq<char>>,
) -> spec_fn(ChildItem) -> Seq<RuleAreaView> {
    |child: ChildItem|
        if !finishes_with(child.type_url@, ".Zone"@) {
            Seq::empty()
        } else {
            match as_child_zone(child) {
                Ok(zone) => optional(rule_area(zone, layer, "footprint"@, kiid, reference)),
                Err(_) => Seq::empty(),
            }
        }
}

/// The rule areas inside a footprint. A footprint that does not decode is passed over.
pub open spec fn footprint_rule_areas(layer: Option<Seq<char>>) -> spec_fn(Item) -> Seq<
    RuleAreaView,
> {
    |item: Item|
        match as_footprint(item) {
            Ok(fp) => gather(
                children_of(fp),
                child_rule_area(layer, fp.id.deep_view(), reference_if_any(fp.reference_field)),
            ),
            Err(_) => Seq::empty(),
        }
}

/// The rule areas of the board, and behind them those inside its footprints.
pub open spec fn rule_areas<'a>(
    layer: Option<Seq<char>>,
    replies: Seq<Reply>,
    at: int,
) -> Progress<'a, Seq<RuleAreaView>> {
    joined_lists(
        judged(
            items_of(ItemKind::Zone, replies, at),
            |items: Seq<Item>| Ok(gather(items, board_rule_area(layer))),
        ),
        |used: int|
            judged(
                items_of(ItemKind::Footprint, replies, used),
                |items: Seq<Item>| Ok(gather(items, footprint_rule_areas(layer))),
            ),
    )
}

fn add_rule_area(area: Option<IpcRuleArea>, out: &mut Vec<IpcRuleArea>)
    ensures
        final(out).deep_view() == old(out).deep_view() + optional(area.deep_view()),
{
    let ghost before = out.deep_view();
    let ghost view = area.deep_view();
    match area {
        Some(found) => {
            out.push(found);
            assert(out.deep_view() == before + optional(view));
        },
        None => {
            assert(before + Seq::<RuleAreaView>::empty() == before);
        },
    }
}

impl KiCadIpcClient {
    /// A zone as a rule area, or nothing where it is no rule area (a copper pour) or does not
    /// lie on the layer asked for.
    pub fn zone_to_rule_area(
        zone: &Zone,
        layer_filter: Option<&str>,
        owner: &str,
        footprint_kiid: Option<String>,
        footprint_reference: Option<String>,
    ) -> (r: Option<IpcRuleArea>)
        ensures
            r.deep_view() == rule_area(
                *zone,
                layer_filter.deep_view(),
                owner@,
                footprint_kiid.deep_view(),
                footprint_reference.deep_view(),
            ),
    {
        let settings = match &zone.settings {
            Some(ZoneSettings::RuleArea(settings)) => settings,
            _ => {
                return None;
            },
        };
        let layers = name_layers(&zone.layers);
        if let Some(wanted) = layer_filter {
            if !text::list_holds(&layers, wanted) {
                return None;
            }
        }
        Some(
            IpcRuleArea {
                kiid: copy_or_empty(&zone.id),
                name: zone.name.clone(),
                layers,
                bounds: polyset_points(&zone.outline),
                keepout_copper: settings.keepout_copper,
                keepout_vias: settings.keepout_vias,
                keepout_tracks: settings.keepout_tracks,
                keepout_pads: settings.keepout_pads,
                keepout_footprints: settings.keepout_footprints,
                owner: owner.to_owned(),
                footprint_kiid,
                footprint_reference,
            },
        )
    }

    fn rule_areas_on_board(items: &Vec<&Item>, layer_filter: Option<&str>) -> (r: Vec<IpcRuleArea>)
        ensures
            r.deep_view() == gather(items.deep_view(), board_rule_area(layer_filter.deep_view())),
    {
        let ghost all = items.deep_view();
        let ghost pick = board_rule_area(layer_filter.deep_view());
        let mut out: Vec<IpcRuleArea> = Vec::new();
        let mut i: usize = 0;
        assert(out.deep_view() == Seq::<RuleAreaView>::empty());
        while i < items.len()
            invariant
                i <= items@.len(),
                all == items.deep_view(),
                pick == board_rule_area(layer_filter.deep_view()),
                out.deep_view() == gather(all.take(i as int), pick),
            decreases items@.len() - i,
        {
            proof {
                assert(all[i as int] == *items@[i as int]);
                lemma_gather_step(all, pick, i as int);
            }
            if let Ok(zone) = zone_of(items[i]) {
                add_rule_area(
                    Self::zone_to_rule_area(zone, layer_filter, "board", None, None),
                    &mut out,
                );
            }
            i += 1;
        }
        assert(all.take(all.len() as int) == all);
        out
    }

    fn rule_areas_among(
        children: &Vec<ChildItem>,
        layer_filter: Option<&str>,
        kiid: &Option<String>,
        reference: &Option<String>,
    ) -> (r: Vec<IpcRuleArea>)
        ensures
            r.deep_view() == gather(
                children@,
                child_rule_area(layer_filter.deep_view(), kiid.deep_view(), reference.deep_view()),
            ),
    {
        let ghost all = children@;
        let ghost pick = child_rule_area(
            layer_filter.deep_view(),
            kiid.deep_view(),
            reference.deep_view(),
        );
        let mut out: Vec<IpcRuleArea> = Vec::new();
        let mut i: usize = 0;
        assert(out.deep_view() == Seq::<RuleAreaView>::empty());
        while i < children.len()
            invariant
                i <= children@.len(),
                all == children@,
                pick == child_rule_area(
                    layer_filter.deep_view(),
                    kiid.deep_view(),
                    reference.deep_view(),
                ),
                out.deep_view() == gather(all.take(i as int), pick),
            decreases children@.len() - i,
        {
            proof {
                lemma_gather_step(all, pick, i as int);
            }
            if text::ends_with(children[i].type_url.as_str(), ".Zone") {
                if let Ok(zone) = child_zone_of(&children[i]) {
                    add_rule_area(
                        Self::zone_to_rule_area(
                            zone,
                            layer_filter,
                            "footprint",
                            copy_option(kiid),
                            copy_option(reference),
                        ),
                        &mut out,
                    );
                }
            }
            i += 1;
        }
        assert(all.take(all.len() as int) == all);
        out
    }

    fn rule_areas_in_footprints(items: &Vec<&Item>, layer_filter: Option<&str>) -> (r: Vec<
        IpcRuleArea,
    >)
        ensures
            r.deep_view() == gather(
                items.deep_view(),
                footprint_rule_areas(layer_filter.deep_view()),
            ),
    {
        let ghost all = items.deep_view();
        let ghost pick = footprint_rule_areas(layer_filter.deep_view());
        let mut out: Vec<IpcRuleArea> = Vec::new();
        let mut i: usize = 0;
        assert(out.deep_view() == Seq::<RuleAreaView>::empty());
        while i < items.len()
            invariant
                i <= items@.len(),
                all == items.deep_view(),
                pick == footprint_rule_areas(layer_filter.deep_view()),
                out.deep_view() == gather(all.take(i as int), pick),
            decreases items@.len() - i,
        {
            proof {
                assert(all[i as int] == *items@[i as int]);
                lemma_gather_step(all, pick, i as int);
            }
            let ghost before = out.deep_view();
            if let Ok(fp) = footprint_of(items[i]) {
                if let Some(definition) = &fp.definition {
                    let reference = copy_reference(&fp.reference_field);
                    let mut found = Self::rule_areas_among(
                        &definition.items,
                        layer_filter,
                        &fp.id,
                        &reference,
                    );
                    let ghost views = found.deep_view();
                    out.append(&mut found);
                    assert(out.deep_view() == before + views);
                }
            }
            assert(before + Seq::<RuleAreaView>::empty() == before);
            i += 1;
        }
        assert(all.take(all.len() as int) == all);
        out
    }

    /// The rule areas of the board and of its footprints, those on one layer where it is
    /// given. Copper pours are not among them.
    pub fn get_rule_areas<'a>(
        &self,
        layer_filter: Option<&str>,
        replies: &'a Vec<Reply>,
        at: usize,
    ) -> (r: Step<'a, Vec<IpcRuleArea>>)
        ensures
            r.deep_view() == rule_areas(layer_filter.deep_view(), replies@, at as int),
    {
        let (zones, at2) = match self.get_items(ItemKind::Zone, replies, at) {
            Step::Next(task) => {
                return Step::Next(task);
            },
            Step::Done(Err(error), used) => {
                return Step::Done(Err(error), used);
            },
            Step::Done(Ok(items), used) => (items, used),
        };
        let mut areas = Self::rule_areas_on_board(&zones, layer_filter);
        let (footprints, at3) = match self.get_items(ItemKind::Footprint, replies, at2) {
            Step::Next(task) => {
                return Step::Next(task);
            },
            Step::Done(Err(error), used) => {
                return Step::Done(Err(error), used);
            },
            Step::Done(Ok(items), used) => (items, used),
        };
        let mut embedded = Self::rule_areas_in_footprints(&footprints, layer_filter);
        let ghost on_board = areas.deep_view();
        let ghost in_footprints = embedded.deep_view();
        areas.append(&mut embedded);
        assert(areas.deep_view() == on_board + in_footprints);
        Step::Done(Ok(areas), at3)
    }
}

/// Whether an area lies on the layer asked for.
pub open spec fn on_layer(area: RuleAreaView, layer: Option<Seq<char>>) -> bool {
    layer matches Some(wanted) ==> area.layers.contains(wanted)
}

/// All rule areas that are listed lie on the layer asked for. Those of the board say so and
/// name no footprint; the others say that a footprint owns them.
pub proof fn rule_areas_lie_on_the_layer(layer: Option<Seq<char>>, replies: Seq<Reply>, at: int)
    ensures
        rule_areas(layer, replies, at) matches Progress::Done(Ok(areas), _) ==> forall|i: int|
            0 <= i < areas.len() ==> {
                &&& on_layer(#[trigger] areas[i], layer)
                &&& areas[i].owner == "board"@ && areas[i].footprint_kiid is None
                    && areas[i].footprint_reference is None || areas[i].owner == "footprint"@
            },
{
    if let Progress::Done(Ok(areas), _) = rule_areas(layer, replies, at) {
        let first = items_of(ItemKind::Zone, replies, at);
        let zones = first->Done_0->Ok_0;
        let used = first->Done_1;
        let second = items_of(ItemKind::Footprint, replies, used);
        let footprints = second->Done_0->Ok_0;
        let on_board = gather(zones, board_rule_area(layer));
        let inside = gather(footprints, footprint_rule_areas(layer));
        assert(areas == on_board + inside);
        assert forall|i: int| 0 <= i < areas.len() implies {
            &&& on_layer(#[trigger] areas[i], layer)
            &&& areas[i].owner == "board"@ && areas[i].footprint_kiid is None
                && areas[i].footprint_reference is None || areas[i].owner == "footprint"@
        } by {
            if i < on_board.len() {
                let source = lemma_gather_source(zones, board_rule_area(layer), i);
                let zone = as_zone(zones[source.0])->Ok_0;
                assert(rule_area(zone, layer, "board"@, None, None) == Some(areas[i]));
            } else {
                let k = i - on_board.len();
                let source = lemma_gather_source(footprints, footprint_rule_areas(layer), k);
                let fp = as_footprint(footprints[source.0])->Ok_0;
                let pick = child_rule_area(
                    layer,
                    fp.id.deep_view(),
                    reference_if_any(fp.reference_field),
                );
                let inner = lemma_gather_source(children_of(fp), pick, source.1);
                let zone = as_child_zone(children_of(fp)[inner.0])->Ok_0;
                assert(rule_area(
                    zone,
                    layer,
                    "footprint"@,
                    fp.id.deep_view(),
                    reference_if_any(fp.reference_field),
                ) == Some(areas[i]));
            }
        }
    }
}

/// A zone that is no rule area is never listed as one.
pub proof fn only_rule_areas_are_listed(
    zone: Zone,
    layer: Option<Seq<char>>,
    owner: Seq<char>,
    kiid: Option<Seq<char>>,
    reference: Option<Seq<char>>,
)
    ensures
        rule_area(zone, layer, owner, kiid, reference) is Some ==> zone.settings matches Some(
            ZoneSettings::RuleArea(_),
        ),
        layer is None && (zone.settings matches Some(ZoneSettings::RuleArea(_))) ==> rule_area(
            zone,
            layer,
            owner,
            kiid,
            reference,
        ) is Some,
{
}

} // verus!
