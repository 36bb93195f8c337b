//! What a check of a via finds.

use crate::board::{IpcRoutingGeometry, PadView, RoutingView};
use crate::gather::{gather_indexed, lemma_gather_in, lemma_gather_indexed_in, lemma_joined_in};
use crate::laws::route::{is_outlined, is_reason, is_zone_net, outline_known, takes_in};
use crate::layers::traversed;
use crate::messages::Vector2;
use crate::scalar::{infinity_spec, Scalar};
use crate::via_check::{
    collisions_in, edge_finding, findings, findings_on, is_measured, is_via_check, least_gap,
    pad_finding, pads_known, surroundings_known, track_finding, via_finding, zone_crossing,
    zone_crossings, Finding, ViaCheck, ViaCollision, ViaMeasures, ViaVerdict, ZoneCrossing,
};
use vstd::prelude::*;

verus! {

// What counts.

/// Whether a pad of another net lies on a layer.
pub open spec fn pad_lies_on(g: RoutingView, i: int, net: Seq<char>, layer: Seq<char>) -> bool {
    &&& 0 <= i < g.pads.items.len()
    &&& g.pads.items[i].net_name != net
    &&& takes_in(g.pads.items[i].layers, layer)
}

/// Whether a track of another net lies on a layer.
pub open spec fn track_lies_on(g: RoutingView, i: int, net: Seq<char>, layer: Seq<char>) -> bool {
    &&& 0 <= i < g.tracks.items.len()
    &&& g.tracks.items[i].net_name != net
    &&& g.tracks.items[i].layer == layer
}

/// Whether a via of another net lies on a layer.
pub open spec fn via_lies_on(g: RoutingView, i: int, net: Seq<char>, layer: Seq<char>) -> bool {
    &&& 0 <= i < g.vias.items.len()
    &&& g.vias.items[i].net_name != net
    &&& takes_in(g.vias.items[i].layers, layer)
}

/// Whether a via comes too near to something on a layer that it goes through, or to the
/// board's edge, or meets something there whose extent is not known.
pub open spec fn comes_too_near(
    c: ViaCollision,
    g: RoutingView,
    layers: Seq<Seq<char>>,
    net: Seq<char>,
    clearance: Scalar,
    m: ViaMeasures,
) -> bool {
    match c {
        ViaCollision::PadUnknown { layer, pad } => {
            &&& layer < layers.len()
            &&& pad_lies_on(g, pad as int, net, layers[layer as int])
            &&& !outline_known(g.pads.items[pad as int])
        },
        ViaCollision::Pad { layer, pad, gap } => {
            &&& layer < layers.len()
            &&& pad_lies_on(g, pad as int, net, layers[layer as int])
            &&& outline_known(g.pads.items[pad as int])
            &&& gap == m.pads@[pad as int] && gap.below(clearance)
        },
        ViaCollision::Track { layer, track, gap } => {
            &&& layer < layers.len()
            &&& track_lies_on(g, track as int, net, layers[layer as int])
            &&& gap == m.tracks@[track as int] && gap.below(clearance)
        },
        ViaCollision::Via { layer, via, gap } => {
            &&& layer < layers.len()
            &&& via_lies_on(g, via as int, net, layers[layer as int])
            &&& g.vias.items[via as int].size is Some
            &&& gap == m.vias@[via as int] && gap.below(clearance)
        },
        ViaCollision::ViaUnknown { layer, via } => {
            &&& layer < layers.len()
            &&& via_lies_on(g, via as int, net, layers[layer as int])
            &&& g.vias.items[via as int].size is None
        },
        ViaCollision::BoardEdge { edge, gap } => {
            &&& edge < g.board_edges.items.len()
            &&& gap == m.edges@[edge as int] && gap.below(clearance)
        },
    }
}

/// Whether a gap is that from a via to something on a layer that it goes through.
pub open spec fn is_gap_on(
    gap: Scalar,
    g: RoutingView,
    layer: Seq<char>,
    net: Seq<char>,
    m: ViaMeasures,
) -> bool {
    ||| exists|i: int|
        #[trigger] pad_lies_on(g, i, net, layer) && outline_known(g.pads.items[i]) && gap
            == m.pads@[i]
    ||| exists|i: int| #[trigger] track_lies_on(g, i, net, layer) && gap == m.tracks@[i]
    ||| exists|i: int|
        #[trigger] via_lies_on(g, i, net, layer) && g.vias.items[i].size is Some && gap
            == m.vias@[i]
}

/// Whether a gap is that from a via to something on one of its layers, or to the board's edge.
pub open spec fn is_gap(
    gap: Scalar,
    g: RoutingView,
    layers: Seq<Seq<char>>,
    net: Seq<char>,
    m: ViaMeasures,
) -> bool {
    ||| exists|k: int| 0 <= k < layers.len() && is_gap_on(gap, g, #[trigger] layers[k], net, m)
    ||| exists|i: int| 0 <= i < g.board_edges.items.len() && gap == #[trigger] m.edges@[i]
}

spec fn fits_in_memory(g: RoutingView, layers: Seq<Seq<char>>) -> bool {
    &&& g.tracks.items.len() <= usize::MAX
    &&& g.pads.items.len() <= usize::MAX
    &&& g.vias.items.len() <= usize::MAX
    &&& g.zones.items.len() <= usize::MAX
    &&& g.board_edges.items.len() <= usize::MAX
    &&& layers.len() <= usize::MAX
}

proof fn lemma_one<B>(a: B, b: B)
    ensures
        seq![a].contains(b) <==> a == b,
        !Seq::<B>::empty().contains(b),
{
    assert(seq![a][0] == a);
}

/// What a finding may be on a layer.
spec fn found_on(
    f: Finding,
    g: RoutingView,
    k: int,
    layer: Seq<char>,
    net: Seq<char>,
    clearance: Scalar,
    m: ViaMeasures,
) -> bool {
    ||| exists|i: int| #[trigger] pad_lies_on(g, i, net, layer) && pad_found(f, g, k, i, clearance, m)
    ||| exists|i: int|
        #[trigger] track_lies_on(g, i, net, layer) && f.gap == Some(m.tracks@[i]) && f.collision
            == (if m.tracks@[i].below(clearance) {
            Some(
                ViaCollision::Track { layer: k as usize, track: i as usize, gap: m.tracks@[i] },
            )
        } else {
            None
        })
    ||| exists|i: int| #[trigger] via_lies_on(g, i, net, layer) && via_found(f, g, k, i, clearance, m)
}

spec fn pad_found(
    f: Finding,
    g: RoutingView,
    k: int,
    i: int,
    clearance: Scalar,
    m: ViaMeasures,
) -> bool {
    if outline_known(g.pads.items[i]) {
        f.gap == Some(m.pads@[i]) && f.collision == (if m.pads@[i].below(clearance) {
            Some(ViaCollision::Pad { layer: k as usize, pad: i as usize, gap: m.pads@[i] })
        } else {
            None
        })
    } else {
        f.gap is None && f.collision == Some(
            ViaCollision::PadUnknown { layer: k as usize, pad: i as usize },
        )
    }
}

spec fn via_found(
    f: Finding,
    g: RoutingView,
    k: int,
    i: int,
    clearance: Scalar,
    m: ViaMeasures,
) -> bool {
    if g.vias.items[i].size is Some {
        f.gap == Some(m.vias@[i]) && f.collision == (if m.vias@[i].below(clearance) {
            Some(ViaCollision::Via { layer: k as usize, via: i as usize, gap: m.vias@[i] })
        } else {
            None
        })
    } else {
        f.gap is None && f.collision == Some(
            ViaCollision::ViaUnknown { layer: k as usize, via: i as usize },
        )
    }
}

proof fn lemma_found_on(
    f: Finding,
    g: RoutingView,
    k: int,
    layer: Seq<char>,
    net: Seq<char>,
    clearance: Scalar,
    m: ViaMeasures,
)
    ensures
        findings_on(g, k, layer, net, clearance, m).contains(f) <==> found_on(
            f,
            g,
            k,
            layer,
            net,
            clearance,
            m,
        ),
{
    let pad_pick = pad_finding(k, layer, net, clearance, m.pads@);
    let track_pick = track_finding(k, layer, net, clearance, m.tracks@);
    let via_pick = via_finding(k, layer, net, clearance, m.vias@);
    let pads = gather_indexed(g.pads.items, pad_pick);
    let tracks = gather_indexed(g.tracks.items, track_pick);
    let vias = gather_indexed(g.vias.items, via_pick);
    lemma_joined_in(pads + tracks, vias, f);
    lemma_joined_in(pads, tracks, f);
    lemma_gather_indexed_in(g.pads.items, pad_pick, f);
    lemma_gather_indexed_in(g.tracks.items, track_pick, f);
    lemma_gather_indexed_in(g.vias.items, via_pick, f);
    assert forall|i: int| 0 <= i < g.pads.items.len() implies (pad_pick(
        i,
        #[trigger] g.pads.items[i],
    ).contains(f) <==> pad_lies_on(g, i, net, layer) && pad_found(f, g, k, i, clearance, m)) by {
        let own = pad_pick(i, g.pads.items[i]);
        if own.len() == 1 {
            lemma_one(own[0], f);
            assert(own =~= seq![own[0]]);
        }
    }
    assert forall|i: int| 0 <= i < g.tracks.items.len() implies (track_pick(
        i,
        #[trigger] g.tracks.items[i],
    ).contains(f) <==> track_lies_on(g, i, net, layer) && f.gap == Some(m.tracks@[i])
        && f.collision == (if m.tracks@[i].below(clearance) {
        Some(ViaCollision::Track { layer: k as usize, track: i as usize, gap: m.tracks@[i] })
    } else {
        None
    })) by {
        let own = track_pick(i, g.tracks.items[i]);
        if own.len() == 1 {
            lemma_one(own[0], f);
            assert(own =~= seq![own[0]]);
        }
    }
    assert forall|i: int| 0 <= i < g.vias.items.len() implies (via_pick(
        i,
        #[trigger] g.vias.items[i],
    ).contains(f) <==> via_lies_on(g, i, net, layer) && via_found(f, g, k, i, clearance, m)) by {
        let own = via_pick(i, g.vias.items[i]);
        if own.len() == 1 {
            lemma_one(own[0], f);
            assert(own =~= seq![own[0]]);
        }
    }
    if pads.contains(f) {
        let i = choose|i: int|
            0 <= i < g.pads.items.len() && pad_pick(i, #[trigger] g.pads.items[i]).contains(f);
        assert(pad_lies_on(g, i, net, layer));
    }
    if tracks.contains(f) {
        let i = choose|i: int|
            0 <= i < g.tracks.items.len() && track_pick(i, #[trigger] g.tracks.items[i]).contains(
                f,
            );
        assert(track_lies_on(g, i, net, layer));
    }
    if vias.contains(f) {
        let i = choose|i: int|
            0 <= i < g.vias.items.len() && via_pick(i, #[trigger] g.vias.items[i]).contains(f);
        assert(via_lies_on(g, i, net, layer));
    }
    if exists|i: int|
        #[trigger] pad_lies_on(g, i, net, layer) && pad_found(f, g, k, i, clearance, m) {
        let i = choose|i: int|
            #[trigger] pad_lies_on(g, i, net, layer) && pad_found(f, g, k, i, clearance, m);
        assert(pad_pick(i, g.pads.items[i]).contains(f));
    }
    if exists|i: int|
        #[trigger] via_lies_on(g, i, net, layer) && via_found(f, g, k, i, clearance, m) {
        let i = choose|i: int|
            #[trigger] via_lies_on(g, i, net, layer) && via_found(f, g, k, i, clearance, m);
        assert(via_pick(i, g.vias.items[i]).contains(f));
    }
}

/// What a finding may be at the board's edge.
spec fn found_at_edge(f: Finding, g: RoutingView, clearance: Scalar, m: ViaMeasures) -> bool {
    exists|i: int|
        0 <= i < g.board_edges.items.len() && f.gap == Some(#[trigger] m.edges@[i]) && f.collision
            == (if m.edges@[i].below(clearance) {
            Some(ViaCollision::BoardEdge { edge: i as usize, gap: m.edges@[i] })
        } else {
            None
        })
}

proof fn lemma_found(
    f: Finding,
    g: RoutingView,
    layers: Seq<Seq<char>>,
    net: Seq<char>,
    clearance: Scalar,
    m: ViaMeasures,
)
    ensures
        findings(g, layers, net, clearance, m).contains(f) <==> found_at_edge(f, g, clearance, m)
            || exists|k: int|
            0 <= k < layers.len() && found_on(f, g, k, #[trigger] layers[k], net, clearance, m),
{
    let pick = |k: int, layer: Seq<char>| findings_on(g, k, layer, net, clearance, m);
    let edge_pick = edge_finding(clearance, m.edges@);
    let on = gather_indexed(layers, pick);
    let edges = gather_indexed(g.board_edges.items, edge_pick);
    lemma_joined_in(on, edges, f);
    lemma_gather_indexed_in(layers, pick, f);
    lemma_gather_indexed_in(g.board_edges.items, edge_pick, f);
    assert forall|k: int| 0 <= k < layers.len() implies (pick(k, #[trigger] layers[k]).contains(f)
        <==> found_on(f, g, k, layers[k], net, clearance, m)) by {
        lemma_found_on(f, g, k, layers[k], net, clearance, m);
    }
    assert forall|i: int| 0 <= i < g.board_edges.items.len() implies (edge_pick(
        i,
        #[trigger] g.board_edges.items[i],
    ).contains(f) <==> f.gap == Some(m.edges@[i]) && f.collision == (if m.edges@[i].below(
        clearance,
    ) {
        Some(ViaCollision::BoardEdge { edge: i as usize, gap: m.edges@[i] })
    } else {
        None
    })) by {
        let own = edge_pick(i, g.board_edges.items[i]);
        lemma_one(own[0], f);
        assert(own =~= seq![own[0]]);
    }
    if edges.contains(f) {
        let i = choose|i: int|
            0 <= i < g.board_edges.items.len() && edge_pick(
                i,
                #[trigger] g.board_edges.items[i],
            ).contains(f);
        assert(f.gap == Some(m.edges@[i]));
    }
    if found_at_edge(f, g, clearance, m) {
        let i = choose|i: int|
            0 <= i < g.board_edges.items.len() && f.gap == Some(#[trigger] m.edges@[i])
                && f.collision == (if m.edges@[i].below(clearance) {
                Some(ViaCollision::BoardEdge { edge: i as usize, gap: m.edges@[i] })
            } else {
                None
            });
        assert(edge_pick(i, g.board_edges.items[i]).contains(f));
    }
}

spec fn some_finding(found: Seq<Finding>, c: ViaCollision) -> bool {
    exists|f: Finding| #[trigger] found.contains(f) && f.collision == Some(c)
}

proof fn lemma_collisions(found: Seq<Finding>, c: ViaCollision)
    ensures
        collisions_in(found).contains(c) <==> some_finding(found, c),
{
    let pick = |f: Finding|
        match f.collision {
            Some(c) => seq![c],
            None => Seq::empty(),
        };
    lemma_gather_in(found, pick, c);
    assert forall|k: int| 0 <= k < found.len() implies (pick(#[trigger] found[k]).contains(c)
        <==> found[k].collision == Some(c)) by {
        match found[k].collision {
            Some(own) => {
                lemma_one(own, c);
            },
            None => {},
        }
    }
    if collisions_in(found).contains(c) {
        let k = choose|k: int| 0 <= k < found.len() && pick(#[trigger] found[k]).contains(c);
        assert(found.contains(found[k]));
    }
    if some_finding(found, c) {
        let f = choose|f: Finding| #[trigger] found.contains(f) && f.collision == Some(c);
        let k = choose|k: int| 0 <= k < found.len() && found[k] == f;
        assert(pick(found[k]).contains(c));
    }
}

proof fn lemma_too_near(
    c: ViaCollision,
    g: RoutingView,
    layers: Seq<Seq<char>>,
    net: Seq<char>,
    clearance: Scalar,
    m: ViaMeasures,
)
    requires
        fits_in_memory(g, layers),
    ensures
        collisions_in(findings(g, layers, net, clearance, m)).contains(c) <==> comes_too_near(
            c,
            g,
            layers,
            net,
            clearance,
            m,
        ),
{
    let found = findings(g, layers, net, clearance, m);
    lemma_collisions(found, c);
    if some_finding(found, c) {
        let f = choose|f: Finding| #[trigger] found.contains(f) && f.collision == Some(c);
        lemma_found(f, g, layers, net, clearance, m);
        if found_at_edge(f, g, clearance, m) {
            assert(comes_too_near(c, g, layers, net, clearance, m));
        } else {
            let k = choose|k: int|
                0 <= k < layers.len() && found_on(f, g, k, #[trigger] layers[k], net, clearance, m);
            assert(found_on(f, g, k, layers[k], net, clearance, m));
            assert(comes_too_near(c, g, layers, net, clearance, m));
        }
    }
    if comes_too_near(c, g, layers, net, clearance, m) {
        let f = match c {
            ViaCollision::PadUnknown { .. } => Finding { gap: None, collision: Some(c) },
            ViaCollision::ViaUnknown { .. } => Finding { gap: None, collision: Some(c) },
            ViaCollision::Pad { gap, .. } => Finding { gap: Some(gap), collision: Some(c) },
            ViaCollision::Track { gap, .. } => Finding { gap: Some(gap), collision: Some(c) },
            ViaCollision::Via { gap, .. } => Finding { gap: Some(gap), collision: Some(c) },
            ViaCollision::BoardEdge { gap, .. } => Finding { gap: Some(gap), collision: Some(c) },
        };
        lemma_found(f, g, layers, net, clearance, m);
        match c {
            ViaCollision::PadUnknown { layer, pad } => {
                let (k, i) = (layer as int, pad as int);
                assert(pad_lies_on(g, i, net, layers[k]) && pad_found(f, g, k, i, clearance, m));
                assert(found_on(f, g, k, layers[k], net, clearance, m));
            },
            ViaCollision::Pad { layer, pad, .. } => {
                let (k, i) = (layer as int, pad as int);
                assert(pad_lies_on(g, i, net, layers[k]) && pad_found(f, g, k, i, clearance, m));
                assert(found_on(f, g, k, layers[k], net, clearance, m));
            },
            ViaCollision::Track { layer, track, .. } => {
                let (k, i) = (layer as int, track as int);
                assert(track_lies_on(g, i, net, layers[k]));
                assert(found_on(f, g, k, layers[k], net, clearance, m));
            },
            ViaCollision::Via { layer, via, .. } => {
                let (k, i) = (layer as int, via as int);
                assert(via_lies_on(g, i, net, layers[k]) && via_found(f, g, k, i, clearance, m));
                assert(found_on(f, g, k, layers[k], net, clearance, m));
            },
            ViaCollision::ViaUnknown { layer, via } => {
                let (k, i) = (layer as int, via as int);
                assert(via_lies_on(g, i, net, layers[k]) && via_found(f, g, k, i, clearance, m));
                assert(found_on(f, g, k, layers[k], net, clearance, m));
            },
            ViaCollision::BoardEdge { edge, .. } => {
                let i = edge as int;
                assert(f.gap == Some(m.edges@[i]));
                assert(found_at_edge(f, g, clearance, m));
            },
        }
        assert(found.contains(f));
    }
}

// The least gap.

spec fn has_gap(found: Seq<Finding>, gap: Scalar) -> bool {
    exists|f: Finding| #[trigger] found.contains(f) && f.gap == Some(gap)
}

proof fn lemma_gap(
    gap: Scalar,
    g: RoutingView,
    layers: Seq<Seq<char>>,
    net: Seq<char>,
    clearance: Scalar,
    m: ViaMeasures,
)
    ensures
        has_gap(findings(g, layers, net, clearance, m), gap) <==> is_gap(gap, g, layers, net, m),
{
    let found = findings(g, layers, net, clearance, m);
    if has_gap(found, gap) {
        let f = choose|f: Finding| #[trigger] found.contains(f) && f.gap == Some(gap);
        lemma_found(f, g, layers, net, clearance, m);
        if !found_at_edge(f, g, clearance, m) {
            let k = choose|k: int|
                0 <= k < layers.len() && found_on(f, g, k, #[trigger] layers[k], net, clearance, m);
            assert(is_gap_on(gap, g, layers[k], net, m));
        }
    }
    if exists|i: int| 0 <= i < g.board_edges.items.len() && gap == #[trigger] m.edges@[i] {
        let i = choose|i: int|
            0 <= i < g.board_edges.items.len() && gap == #[trigger] m.edges@[i];
        let f = Finding {
            gap: Some(gap),
            collision: if gap.below(clearance) {
                Some(ViaCollision::BoardEdge { edge: i as usize, gap })
            } else {
                None
            },
        };
        assert(f.gap == Some(m.edges@[i]));
        lemma_found(f, g, layers, net, clearance, m);
        assert(found.contains(f));
    }
    if exists|k: int| 0 <= k < layers.len() && is_gap_on(gap, g, #[trigger] layers[k], net, m) {
        let k = choose|k: int|
            0 <= k < layers.len() && is_gap_on(gap, g, #[trigger] layers[k], net, m);
        lemma_gap_on(gap, g, layers, k, net, clearance, m);
    }
}

proof fn lemma_gap_on(
    gap: Scalar,
    g: RoutingView,
    layers: Seq<Seq<char>>,
    k: int,
    net: Seq<char>,
    clearance: Scalar,
    m: ViaMeasures,
)
    requires
        0 <= k < layers.len(),
        is_gap_on(gap, g, layers[k], net, m),
    ensures
        has_gap(findings(g, layers, net, clearance, m), gap),
{
    let layer = layers[k];
    let collision = if exists|i: int|
        #[trigger] pad_lies_on(g, i, net, layer) && outline_known(g.pads.items[i]) && gap
            == m.pads@[i] {
        let i = choose|i: int|
            #[trigger] pad_lies_on(g, i, net, layer) && outline_known(g.pads.items[i]) && gap
                == m.pads@[i];
        ViaCollision::Pad { layer: k as usize, pad: i as usize, gap }
    } else if exists|i: int| #[trigger] track_lies_on(g, i, net, layer) && gap == m.tracks@[i] {
        let i = choose|i: int| #[trigger] track_lies_on(g, i, net, layer) && gap == m.tracks@[i];
        ViaCollision::Track { layer: k as usize, track: i as usize, gap }
    } else {
        let i = choose|i: int|
            #[trigger] via_lies_on(g, i, net, layer) && g.vias.items[i].size is Some && gap
                == m.vias@[i];
        ViaCollision::Via { layer: k as usize, via: i as usize, gap }
    };
    let f = Finding {
        gap: Some(gap),
        collision: if gap.below(clearance) {
            Some(collision)
        } else {
            None
        },
    };
    lemma_found(f, g, layers, net, clearance, m);
    assert(found_on(f, g, k, layers[k], net, clearance, m));
    assert(findings(g, layers, net, clearance, m).contains(f));
}

proof fn lemma_least_gap(found: Seq<Finding>)
    ensures
        least_gap(found) == infinity_spec() || has_gap(found, least_gap(found)),
        !least_gap(found).not_a_number(),
        forall|gap: Scalar| #[trigger] has_gap(found, gap) ==> !gap.below(least_gap(found)),
    decreases found.len(),
{
    if found.len() > 0 {
        let head = found.drop_last();
        lemma_least_gap(head);
        assert(found.last() == found[found.len() - 1]);
        assert(found.contains(found.last()));
        assert forall|f: Finding| #[trigger] found.contains(f) implies head.contains(f) || f
            == found.last() by {
            let k = choose|k: int| 0 <= k < found.len() && found[k] == f;
            if k < head.len() {
                assert(head[k] == f);
            }
        }
        assert forall|f: Finding| #[trigger] head.contains(f) implies found.contains(f) by {
            let k = choose|k: int| 0 <= k < head.len() && head[k] == f;
            assert(found[k] == f);
        }
        if has_gap(head, least_gap(head)) {
            let f = choose|f: Finding|
                #[trigger] head.contains(f) && f.gap == Some(least_gap(head));
            assert(found.contains(f));
        }
        if let Some(gap) = found.last().gap {
            assert(has_gap(found, gap));
        }
        assert forall|gap: Scalar| #[trigger] has_gap(found, gap) implies !gap.below(
            least_gap(found),
        ) by {
            let f = choose|f: Finding| #[trigger] found.contains(f) && f.gap == Some(gap);
            if head.contains(f) {
                assert(has_gap(head, gap));
            }
        }
    } else {
        assert forall|gap: Scalar| !#[trigger] has_gap(found, gap) by {
            if has_gap(found, gap) {
                let f = choose|f: Finding| #[trigger] found.contains(f) && f.gap == Some(gap);
                assert(found.contains(f));
            }
        }
    }
}

// Planes.

/// Whether a via goes through a zone: its middle lies inside one of the zone's polygons, or
/// the zone has no outline.
pub open spec fn goes_through(polygons: Seq<Seq<Vector2>>, inside: Seq<bool>) -> bool {
    !is_outlined(polygons) || exists|k: int| 0 <= k < inside.len() && #[trigger] inside[k]
}

/// Whether all that may lie near a hole in a plane on a layer is known.
pub open spec fn surroundings_are_known(g: RoutingView, layer: Seq<char>) -> bool {
    &&& g.pads.available && g.tracks.available && g.vias.available && g.board_edges.available
    &&& forall|i: int|
        0 <= i < g.pads.items.len() && takes_in((#[trigger] g.pads.items[i]).layers, layer)
            ==> g.pads.items[i].geometry_supported
}

/// Whether a crossing is one of a zone of another net on a layer that a via goes through: it
/// needs a hole of the radius that was measured, and is vouched for where the zone has an
/// outline and all near it is known.
pub open spec fn is_crossing(
    c: ZoneCrossing,
    g: RoutingView,
    layers: Seq<Seq<char>>,
    net: Seq<char>,
    m: ViaMeasures,
) -> bool {
    let zone = g.zones.items[c.zone as int];
    let layer = layers[c.layer as int];
    &&& c.layer < layers.len() && c.zone < g.zones.items.len()
    &&& zone.layer == layer
    &&& !is_zone_net(zone, net)
    &&& goes_through(zone.polygons, m.zones@[c.zone as int]@)
    &&& c.antipad_required
    &&& c.required_antipad_radius == m.antipad_radius
    &&& c.supported <==> is_outlined(zone.polygons) && surroundings_are_known(g, layer)
}

proof fn lemma_crossing(
    c: ZoneCrossing,
    g: RoutingView,
    layers: Seq<Seq<char>>,
    net: Seq<char>,
    m: ViaMeasures,
)
    requires
        fits_in_memory(g, layers),
    ensures
        zone_crossings(g, layers, net, m).contains(c) <==> is_crossing(c, g, layers, net, m),
{
    let pick = |k: int, layer: Seq<char>|
        gather_indexed(g.zones.items, zone_crossing(g, k, layer, net, m));
    lemma_gather_indexed_in(layers, pick, c);
    assert(net.len() == 0 <==> net =~= Seq::<char>::empty());
    assert forall|k: int| 0 <= k < layers.len() implies (pick(k, #[trigger] layers[k]).contains(c)
        <==> c.layer == k && is_crossing(c, g, layers, net, m)) by {
        let on = zone_crossing(g, k, layers[k], net, m);
        lemma_gather_indexed_in(g.zones.items, on, c);
        assert forall|i: int| 0 <= i < g.zones.items.len() implies (on(
            i,
            #[trigger] g.zones.items[i],
        ).contains(c) <==> c.layer == k && c.zone == i && is_crossing(
            c,
            g,
            layers,
            net,
            m,
        )) by {
            let own = on(i, g.zones.items[i]);
            let inside = m.zones@[i]@;
            if inside.contains(true) {
                let p = choose|p: int| 0 <= p < inside.len() && inside[p] == true;
                assert(inside[p]);
            }
            if exists|p: int| 0 <= p < inside.len() && #[trigger] inside[p] {
                let p = choose|p: int| 0 <= p < inside.len() && #[trigger] inside[p];
                assert(inside[p] == true);
            }
            assert(surroundings_known(g, layers[k]) <==> surroundings_are_known(g, layers[k]));
            if own.len() == 1 {
                lemma_one(own[0], c);
                assert(own =~= seq![own[0]]);
            }
        }
        if c.layer == k && is_crossing(c, g, layers, net, m) {
            let i: int = c.zone as int;
            assert(on(i, g.zones.items[i]).contains(c));
        }
    }
    if is_crossing(c, g, layers, net, m) {
        let k: int = c.layer as int;
        assert(pick(k, layers[k]).contains(c));
    }
}

// The verdict.

/// Whether a pad lies on one of some layers, or on no stated one.
pub open spec fn lies_on_some(pad: PadView, layers: Seq<Seq<char>>) -> bool {
    pad.layers.len() == 0 || exists|j: int, k: int|
        0 <= j < pad.layers.len() && 0 <= k < layers.len() && #[trigger] pad.layers[j]
            == #[trigger] layers[k]
}

proof fn lemma_pads_known(pads: Seq<PadView>, layers: Seq<Seq<char>>)
    ensures
        pads_known(pads, layers) <==> forall|i: int|
            0 <= i < pads.len() && lies_on_some(#[trigger] pads[i], layers)
                ==> pads[i].geometry_supported,
{
    assert forall|i: int| 0 <= i < pads.len() implies (lies_on_some(#[trigger] pads[i], layers)
        <==> pads[i].layers.len() == 0 || exists|k: int|
        0 <= k < pads[i].layers.len() && layers.contains(#[trigger] pads[i].layers[k])) by {
        let own = pads[i].layers;
        if exists|k: int| 0 <= k < own.len() && layers.contains(#[trigger] own[k]) {
            let j = choose|j: int| 0 <= j < own.len() && layers.contains(#[trigger] own[j]);
            let k = choose|k: int| 0 <= k < layers.len() && layers[k] == own[j];
            assert(own[j] == layers[k]);
        }
        if exists|j: int, k: int|
            0 <= j < own.len() && 0 <= k < layers.len() && #[trigger] own[j]
                == #[trigger] layers[k] {
            let (j, k) = choose|j: int, k: int|
                0 <= j < own.len() && 0 <= k < layers.len() && #[trigger] own[j]
                    == #[trigger] layers[k];
            assert(layers.contains(own[j]));
        }
    }
}

/// A via is called safe just where it comes too near to nothing, every class of geometry is
/// available, the outlines of all pads on its layers are known, and every zone of another net
/// that it goes through can be vouched for.
pub proof fn a_via_is_safe_where_nothing_speaks_against_it(
    verdict: ViaVerdict,
    g: IpcRoutingGeometry,
    net: Seq<char>,
    start: Seq<char>,
    end: Seq<char>,
    clearance: Scalar,
    m: ViaMeasures,
)
    requires
        is_via_check(
            ViaCheck::Checked(verdict),
            g.deep_view(),
            net,
            start,
            end,
            clearance,
            m,
        ),
    ensures
        ({
            let v = g.deep_view();
            let layers = verdict.layers.deep_view();
            let supported = {
                &&& g.tracks.available && g.pads.available && g.vias.available
                &&& g.board_edges.available && g.zones.available
                &&& forall|i: int|
                    0 <= i < v.pads.items.len() && lies_on_some(
                        #[trigger] v.pads.items[i],
                        layers,
                    ) ==> v.pads.items[i].geometry_supported
                &&& forall|c: ZoneCrossing|
                    #[trigger] is_crossing(c, v, layers, net, m) ==> c.supported
            };
            &&& verdict.all_required_geometry_supported <==> supported
            &&& verdict.globally_safe <==> supported && forall|c: ViaCollision|
                !#[trigger] comes_too_near(c, v, layers, net, clearance, m)
        }),
{
    let v = g.deep_view();
    let layers = verdict.layers.deep_view();
    let crossings = verdict.zone_crossings@;
    let collisions = verdict.collisions@;
    a_via_collides_with_what_is_too_near(verdict, g, net, start, end, clearance, m);
    lemma_pads_known(v.pads.items, layers);
    if collisions.len() > 0 {
        assert(collisions.contains(collisions[0]));
        assert(comes_too_near(collisions[0], v, layers, net, clearance, m));
    }
    assert((forall|k: int| 0 <= k < crossings.len() ==> (#[trigger] crossings[k]).supported)
        <==> forall|c: ZoneCrossing| #[trigger] is_crossing(c, v, layers, net, m) ==> c.supported)
        by {
        if forall|k: int| 0 <= k < crossings.len() ==> (#[trigger] crossings[k]).supported {
            assert forall|c: ZoneCrossing|
                #[trigger] is_crossing(c, v, layers, net, m) implies c.supported by {
                assert(crossings.contains(c));
                let k = choose|k: int| 0 <= k < crossings.len() && crossings[k] == c;
                assert(crossings[k].supported);
            }
        }
        if forall|c: ZoneCrossing| #[trigger] is_crossing(c, v, layers, net, m) ==> c.supported {
            assert forall|k: int| 0 <= k < crossings.len() implies (
            #[trigger] crossings[k]).supported by {
                assert(crossings.contains(crossings[k]));
                assert(is_crossing(crossings[k], v, layers, net, m));
            }
        }
    }
}

/// The least gap of what was found is one of the gaps, and none of the gaps is below it;
/// where nothing has a gap that is a number it is infinite.
pub proof fn the_least_gap_is_attained(found: Seq<Finding>)
    ensures
        least_gap(found) == infinity_spec() || exists|k: int|
            0 <= k < found.len() && (#[trigger] found[k]).gap == Some(least_gap(found)),
        forall|k: int|
            0 <= k < found.len() ==> ((#[trigger] found[k]).gap matches Some(gap) ==> !gap.below(
                least_gap(found),
            )),
        (exists|k: int| 0 <= k < found.len() && is_measured(#[trigger] found[k])) ==> exists|
            k: int,
        |
            0 <= k < found.len() && (#[trigger] found[k]).gap == Some(least_gap(found)),
{
    lemma_least_gap(found);
    if has_gap(found, least_gap(found)) {
        let f = choose|f: Finding| #[trigger] found.contains(f) && f.gap == Some(least_gap(found));
        let k = choose|k: int| 0 <= k < found.len() && found[k] == f;
        assert(found[k].gap == Some(least_gap(found)));
    }
    assert forall|k: int| 0 <= k < found.len() implies ((#[trigger] found[k]).gap matches Some(gap)
        ==> !gap.below(least_gap(found))) by {
        if let Some(gap) = found[k].gap {
            assert(found.contains(found[k]));
            assert(has_gap(found, gap));
        }
    }
    if exists|k: int| 0 <= k < found.len() && is_measured(#[trigger] found[k]) {
        let k = choose|k: int| 0 <= k < found.len() && is_measured(#[trigger] found[k]);
        if least_gap(found) == infinity_spec() {
            assert(!found[k].gap->Some_0.below(least_gap(found)));
            assert(found[k].gap == Some(least_gap(found)));
        }
    }
}

/// A via is checked on the layers that it goes through, unless the layers of the board are not
/// known or one of its two layers is not a copper layer of the board.
pub proof fn a_via_is_checked_where_its_layers_are_known(
    check: ViaCheck,
    g: IpcRoutingGeometry,
    net: Seq<char>,
    start: Seq<char>,
    end: Seq<char>,
    clearance: Scalar,
    m: ViaMeasures,
)
    requires
        is_via_check(check, g.deep_view(), net, start, end, clearance, m),
    ensures
        check is LayersUnavailable <==> !g.layers.available,
        check is LayerNotEnabled <==> g.layers.available && traversed(
            g.deep_view().layers.items,
            start,
            end,
        ) is None,
        check matches ViaCheck::Checked(verdict) ==> traversed(
            g.deep_view().layers.items,
            start,
            end,
        ) == Some(verdict.layers.deep_view()),
        check matches ViaCheck::LayersUnavailable { reason } ==> is_reason(
            reason@,
            g.layers.reason,
            "IPC board layers unavailable"@,
        ),
{
}

/// A verdict on a via names just what the via comes too near to on each of its layers and at
/// the board's edge; its least gap is the gap to something there, and nothing there is nearer;
/// and it names just the zones of other nets that the via goes through.
pub proof fn a_via_collides_with_what_is_too_near(
    verdict: ViaVerdict,
    g: IpcRoutingGeometry,
    net: Seq<char>,
    start: Seq<char>,
    end: Seq<char>,
    clearance: Scalar,
    m: ViaMeasures,
)
    requires
        is_via_check(
            ViaCheck::Checked(verdict),
            g.deep_view(),
            net,
            start,
            end,
            clearance,
            m,
        ),
    ensures
        ({
            let v = g.deep_view();
            let layers = verdict.layers.deep_view();
            &&& forall|c: ViaCollision|
                verdict.collisions@.contains(c) <==> #[trigger] comes_too_near(
                    c,
                    v,
                    layers,
                    net,
                    clearance,
                    m,
                )
            &&& forall|c: ZoneCrossing|
                verdict.zone_crossings@.contains(c) <==> #[trigger] is_crossing(
                    c,
                    v,
                    layers,
                    net,
                    m,
                )
            &&& match verdict.minimum_clearance {
                Some(least) => {
                    &&& is_gap(least, v, layers, net, m) && least.finite()
                    &&& forall|gap: Scalar|
                        #[trigger] is_gap(gap, v, layers, net, m) ==> !gap.below(least)
                },
                None => forall|gap: Scalar|
                    #[trigger] is_gap(gap, v, layers, net, m) ==> !gap.finite() || exists|low: Scalar|
                        #[trigger] is_gap(low, v, layers, net, m) && !low.finite()
                            && !low.not_a_number() && low.is_negative(),
            }
        }),
{
    let v = g.deep_view();
    let layers = verdict.layers.deep_view();
    let found = findings(v, layers, net, clearance, m);
    lemma_memory(g, verdict);
    assert forall|c: ViaCollision| verdict.collisions@.contains(c) <==> #[trigger] comes_too_near(
        c,
        v,
        layers,
        net,
        clearance,
        m,
    ) by {
        lemma_too_near(c, v, layers, net, clearance, m);
    }
    assert forall|c: ZoneCrossing| verdict.zone_crossings@.contains(c) <==> #[trigger] is_crossing(
        c,
        v,
        layers,
        net,
        m,
    ) by {
        lemma_crossing(c, v, layers, net, m);
    }
    lemma_least_gap(found);
    let least = least_gap(found);
    assert forall|gap: Scalar| #[trigger] is_gap(gap, v, layers, net, m) implies !gap.below(
        least,
    ) by {
        lemma_gap(gap, v, layers, net, clearance, m);
        assert(has_gap(found, gap));
    }
    lemma_gap(least, v, layers, net, clearance, m);
}

proof fn lemma_memory(g: IpcRoutingGeometry, verdict: ViaVerdict)
    ensures
        fits_in_memory(g.deep_view(), verdict.layers.deep_view()),
{
    let v = g.deep_view();
    assert(v.tracks.items.len() == g.tracks.items.len());
    assert(v.pads.items.len() == g.pads.items.len());
    assert(v.vias.items.len() == g.vias.items.len());
    assert(v.zones.items.len() == g.zones.items.len());
    assert(v.board_edges.items.len() == g.board_edges.items.len());
    assert(verdict.layers.deep_view().len() == verdict.layers.len());
}

} // verus!
