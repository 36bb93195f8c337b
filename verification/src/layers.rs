//! Board layers: their names, their order, and which of them a via goes through.

use crate::board::{IpcLayer, LayerView};
use crate::gather::{gather, lemma_gather_source, lemma_gather_step, optional};
use crate::messages::{BoardLayer, EnabledLayer};
use crate::text;
use crate::text::{all_digits, begins_with, digits_value, finishes_with};
use vstd::prelude::*;
use vstd::string::*;

verus! {

/// The name of a layer, as KiCad shows it.
pub open spec fn layer_name(layer: BoardLayer) -> Seq<char> {
    match layer {
        BoardLayer::FCu => "F.Cu"@,
        BoardLayer::BCu => "B.Cu"@,
        BoardLayer::In1Cu => "In1.Cu"@,
        BoardLayer::In2Cu => "In2.Cu"@,
        BoardLayer::FSilkS => "F.SilkS"@,
        BoardLayer::BSilkS => "B.SilkS"@,
        BoardLayer::FMask => "F.Mask"@,
        BoardLayer::BMask => "B.Mask"@,
        BoardLayer::FPaste => "F.Paste"@,
        BoardLayer::BPaste => "B.Paste"@,
        BoardLayer::FCrtYd => "F.CrtYd"@,
        BoardLayer::BCrtYd => "B.CrtYd"@,
        BoardLayer::FFab => "F.Fab"@,
        BoardLayer::BFab => "B.Fab"@,
        BoardLayer::EdgeCuts => "Edge.Cuts"@,
        BoardLayer::Other => "Unknown"@,
    }
}

pub fn layer_enum_to_name(layer: BoardLayer) -> (r: &'static str)
    ensures
        r@ == layer_name(layer),
{
    match layer {
        BoardLayer::FCu => "F.Cu",
        BoardLayer::BCu => "B.Cu",
        BoardLayer::In1Cu => "In1.Cu",
        BoardLayer::In2Cu => "In2.Cu",
        BoardLayer::FSilkS => "F.SilkS",
        BoardLayer::BSilkS => "B.SilkS",
        BoardLayer::FMask => "F.Mask",
        BoardLayer::BMask => "B.Mask",
        BoardLayer::FPaste => "F.Paste",
        BoardLayer::BPaste => "B.Paste",
        BoardLayer::FCrtYd => "F.CrtYd",
        BoardLayer::BCrtYd => "B.CrtYd",
        BoardLayer::FFab => "F.Fab",
        BoardLayer::BFab => "B.Fab",
        BoardLayer::EdgeCuts => "Edge.Cuts",
        BoardLayer::Other => "Unknown",
    }
}

/// The names of layers, in order.
pub open spec fn layer_names(layers: Seq<BoardLayer>) -> Seq<Seq<char>> {
    layers.map_values(|l: BoardLayer| layer_name(l))
}

pub fn name_layers(layers: &Vec<BoardLayer>) -> (r: Vec<String>)
    ensures
        r.deep_view() == layer_names(layers@),
{
    let mut out: Vec<String> = Vec::new();
    let mut i: usize = 0;
    while i < layers.len()
        invariant
            i <= layers@.len(),
            out.deep_view() == layer_names(layers@).take(i as int),
        decreases layers@.len() - i,
    {
        let ghost before = out.deep_view();
        let name = layer_enum_to_name(layers[i]).to_owned();
        out.push(name);
        assert(out.deep_view() == before.push(name@));
        assert(layer_names(layers@).take(i + 1) == before.push(layer_names(layers@)[i as int]));
        i += 1;
    }
    assert(layer_names(layers@).take(layers@.len() as int) == layer_names(layers@));
    out
}

/// The number that a text writes: decimal digits, with at most one plus sign before them,
/// for a number that fits in `usize`.
pub open spec fn unsigned_value(s: Seq<char>) -> Option<usize> {
    let digits = if s.len() > 0 && s[0] == '+' {
        s.skip(1)
    } else {
        s
    };
    if all_digits(digits) && digits_value(digits) <= usize::MAX {
        Some(digits_value(digits) as usize)
    } else {
        None
    }
}

/// Where a copper layer stands from the front of the board to its back: the front is 0, the
/// back 33, and the inner layer `InN.Cu` is `N`. Other names stand for no copper layer.
pub open spec fn copper_index(name: Seq<char>) -> Option<usize> {
    if name == "F.Cu"@ {
        Some(0)
    } else if name == "B.Cu"@ {
        Some(33)
    } else if begins_with(name, "In"@) && finishes_with(name.skip(2), ".Cu"@) {
        unsigned_value(name.subrange(2, name.len() - 3))
    } else {
        None
    }
}

pub fn copper_layer_index(layer: &str) -> (r: Option<usize>)
    ensures
        r == copper_index(layer@),
{
    proof {
        reveal_strlit("In");
        reveal_strlit(".Cu");
    }
    if text::same(layer, "F.Cu") {
        return Some(0);
    }
    if text::same(layer, "B.Cu") {
        return Some(33);
    }
    let name = text::chars_of(layer);
    let front = text::chars_of("In");
    let back = text::chars_of(".Cu");
    assert(name@.len() >= 2 ==> name@.subrange(0, 2) == name@.take(2));
    if !text::stands_at(&name, &front, 0) {
        return None;
    }
    if name.len() < 5 {
        return None;
    }
    let end: usize = name.len() - 3;
    assert(name@.subrange(end as int, name@.len() as int) == name@.skip(2).skip(
        name@.skip(2).len() - 3,
    ));
    if !text::stands_at(&name, &back, end) {
        return None;
    }
    let ghost number = name@.subrange(2, end as int);
    let mut from: usize = 2;
    if from < end && name[from] == '+' {
        from = 3;
        assert(number.skip(1) == name@.subrange(3, end as int));
    }
    match text::read_digits(&name, from, end, usize::MAX as u64) {
        Some(value) => Some(value as usize),
        None => None,
    }
}

/// `s` without the prefixes `BL_` that it starts with.
pub open spec fn without_prefix(s: Seq<char>) -> Seq<char>
    decreases s.len(),
{
    if begins_with(s, "BL_"@) && s.len() >= 3 {
        without_prefix(s.skip(3))
    } else {
        s
    }
}

/// `s` with a point for each underscore.
pub open spec fn dotted(s: Seq<char>) -> Seq<char> {
    s.map_values(
        |c: char|
            if c == '_' {
                '.'
            } else {
                c
            },
    )
}

/// The name under which an enabled layer is listed.
pub open spec fn enabled_layer(layer: EnabledLayer) -> LayerView {
    LayerView {
        name: dotted(without_prefix(layer.wire_name@)),
        id: layer.id,
        kind: Seq::empty(),
    }
}

pub fn list_layer(layer: &EnabledLayer) -> (r: IpcLayer)
    ensures
        r.deep_view() == enabled_layer(*layer),
{
    proof {
        reveal_strlit("BL_");
        reveal_strlit(".");
    }
    let wire = text::chars_of(layer.wire_name.as_str());
    let prefix = text::chars_of("BL_");
    let total: usize = wire.len();
    let mut start: usize = 0;
    assert(wire@.skip(0) == wire@);
    while text::stands_at(&wire, &prefix, start)
        invariant
            total == wire@.len(),
            start <= total,
            prefix@ == "BL_"@,
            prefix@.len() == 3,
            without_prefix(wire@) == without_prefix(wire@.skip(start as int)),
        decreases wire@.len() - start,
    {
        proof {
            let rest = wire@.skip(start as int);
            assert(rest.take(3) == wire@.subrange(start as int, start + 3));
            assert(rest.skip(3) == wire@.skip(start + 3));
        }
        start += 3;
    }
    let ghost rest = wire@.skip(start as int);
    assert(rest.len() >= 3 ==> rest.take(3) == wire@.subrange(start as int, start + 3));
    assert(without_prefix(wire@) == rest);
    let mut name = String::new();
    let mut i: usize = start;
    while i < wire.len()
        invariant
            start <= i <= wire@.len(),
            wire@ == layer.wire_name@,
            rest == wire@.skip(start as int),
            "."@ == seq!['.'],
            name@ == dotted(rest).take(i - start),
        decreases wire@.len() - i,
    {
        let ghost before = name@;
        if wire[i] == '_' {
            name.append(".");
        } else {
            name.append(layer.wire_name.as_str().substring_char(i, i + 1));
            assert(layer.wire_name@.subrange(i as int, i + 1) == seq![wire@[i as int]]);
        }
        assert(dotted(rest).take(i - start + 1) == dotted(rest).take(i - start).push(
            dotted(rest)[i - start],
        ));
        i += 1;
    }
    assert(dotted(rest).take(rest.len() as int) == dotted(rest));
    IpcLayer { name, id: layer.id, kind: String::new() }
}

/// A copper layer with where it stands.
pub type Placed = (usize, Seq<char>);

/// The copper layer that an enabled layer is, if it is one.
pub open spec fn placed(layer: LayerView) -> Seq<Placed> {
    optional(
        match copper_index(layer.name) {
            Some(index) => Some((index, layer.name)),
            None => None,
        },
    )
}

/// Puts `x` behind the entries that stand at or before it.
pub open spec fn inserted(s: Seq<Placed>, x: Placed) -> Seq<Placed>
    decreases s.len(),
{
    if s.len() == 0 || s.last().0 <= x.0 {
        s.push(x)
    } else {
        inserted(s.drop_last(), x).push(s.last())
    }
}

/// The entries by where they stand; those that stand at the same place keep their order.
pub open spec fn ordered(s: Seq<Placed>) -> Seq<Placed>
    decreases s.len(),
{
    if s.len() == 0 {
        Seq::empty()
    } else {
        inserted(ordered(s.drop_last()), s.last())
    }
}

/// The copper layers among the enabled layers, from the front of the board to its back.
pub open spec fn copper_stack(enabled: Seq<LayerView>) -> Seq<Placed> {
    ordered(gather(enabled, |l: LayerView| placed(l)))
}

/// The first position of a layer name at or after `i`.
pub open spec fn named_from(s: Seq<Placed>, name: Seq<char>, i: int) -> Option<int>
    decreases s.len() - i,
{
    if i < 0 || i >= s.len() {
        None
    } else if s[i].1 == name {
        Some(i)
    } else {
        named_from(s, name, i + 1)
    }
}

/// The names of the layers from one position to another, both included.
pub open spec fn names_between(stack: Seq<Placed>, a: int, b: int) -> Seq<Seq<char>> {
    let (lo, hi) = if a <= b {
        (a, b)
    } else {
        (b, a)
    };
    stack.subrange(lo, hi + 1).map_values(|p: Placed| p.1)
}

/// The copper layers that a via from `start` to `end` goes through, from front to back; none
/// where one of the two is not an enabled copper layer.
pub open spec fn traversed(
    enabled: Seq<LayerView>,
    start: Seq<char>,
    end: Seq<char>,
) -> Option<Seq<Seq<char>>> {
    let stack = copper_stack(enabled);
    match (named_from(stack, start, 0), named_from(stack, end, 0)) {
        (Some(a), Some(b)) => Some(names_between(stack, a, b)),
        _ => None,
    }
}

proof fn lemma_inserted_at(s: Seq<Placed>, x: Placed, i: int)
    requires
        0 <= i <= s.len(),
        i == 0 || s[i - 1].0 <= x.0,
        forall|j: int| i <= j < s.len() ==> (#[trigger] s[j]).0 > x.0,
    ensures
        inserted(s, x) == s.insert(i, x),
    decreases s.len(),
{
    if i == s.len() {
        assert(s.insert(i, x) == s.push(x));
    } else {
        assert(s.last().0 > x.0);
        lemma_inserted_at(s.drop_last(), x, i);
        assert(s.insert(i, x) == s.drop_last().insert(i, x).push(s.last()));
    }
}

fn position_of(stack: &Vec<(usize, String)>, name: &str) -> (r: Option<usize>)
    ensures
        match r {
            Some(i) => named_from(stack.deep_view(), name@, 0) == Some(i as int),
            None => named_from(stack.deep_view(), name@, 0) is None,
        },
        r matches Some(i) ==> i < stack@.len(),
{
    let mut i: usize = 0;
    while i < stack.len()
        invariant
            i <= stack@.len(),
            named_from(stack.deep_view(), name@, 0) == named_from(
                stack.deep_view(),
                name@,
                i as int,
            ),
        decreases stack@.len() - i,
    {
        assert(stack.deep_view()[i as int].1 == stack@[i as int].1@);
        if text::same(stack[i].1.as_str(), name) {
            return Some(i);
        }
        i += 1;
    }
    None
}

pub fn traversed_layers(enabled_layers: &Vec<IpcLayer>, start: &str, end: &str) -> (r: Option<
    Vec<String>,
>)
    ensures
        r.deep_view() == traversed(enabled_layers.deep_view(), start@, end@),
{
    let ghost enabled = enabled_layers.deep_view();
    let ghost pick = |l: LayerView| placed(l);
    let mut stack: Vec<(usize, String)> = Vec::new();
    let mut i: usize = 0;
    while i < enabled_layers.len()
        invariant
            i <= enabled_layers@.len(),
            enabled == enabled_layers.deep_view(),
            pick == (|l: LayerView| placed(l)),
            stack.deep_view() == ordered(gather(enabled.take(i as int), pick)),
        decreases enabled_layers@.len() - i,
    {
        let layer = &enabled_layers[i];
        let ghost sofar = gather(enabled.take(i as int), pick);
        proof {
            lemma_gather_step(enabled, pick, i as int);
            assert(enabled[i as int] == layer.deep_view());
        }
        match copper_layer_index(layer.name.as_str()) {
            Some(index) => {
                let ghost before = stack.deep_view();
                let ghost x = (index, layer.name@);
                let mut k: usize = stack.len();
                while k > 0 && stack[k - 1].0 > index
                    invariant
                        k <= stack@.len(),
                        before == stack.deep_view(),
                        forall|j: int| k <= j < before.len() ==> (#[trigger] before[j]).0 > index,
                    decreases k,
                {
                    assert(before[k - 1].0 == stack@[k - 1].0);
                    k -= 1;
                }
                assert(k > 0 ==> before[k - 1].0 == stack@[k - 1].0);
                stack.insert(k, (index, layer.name.clone()));
                proof {
                    lemma_inserted_at(before, x, k as int);
                    assert(stack.deep_view() == before.insert(k as int, x));
                    assert(gather(enabled.take(i + 1), pick) == sofar.push(x));
                    assert(sofar.push(x).drop_last() == sofar);
                }
            },
            None => {
                assert(gather(enabled.take(i + 1), pick) == sofar);
            },
        }
        i += 1;
    }
    assert(enabled.take(enabled.len() as int) == enabled);
    let start_index = match position_of(&stack, start) {
        Some(k) => k,
        None => {
            return None;
        },
    };
    let end_index = match position_of(&stack, end) {
        Some(k) => k,
        None => {
            return None;
        },
    };
    let (lo, hi) = if start_index <= end_index {
        (start_index, end_index)
    } else {
        (end_index, start_index)
    };
    let ghost wanted = names_between(stack.deep_view(), start_index as int, end_index as int);
    let mut names: Vec<String> = Vec::new();
    let depth: usize = stack.len();
    assert(hi < depth);
    let stop: usize = hi + 1;
    let mut k: usize = lo;
    while k < stop
        invariant
            lo <= k <= stop <= stack@.len(),
            stop == hi + 1,
            wanted == stack.deep_view().subrange(lo as int, hi + 1).map_values(|p: Placed| p.1),
            names.deep_view() == wanted.take(k - lo),
        decreases stop - k,
    {
        let ghost before = names.deep_view();
        let name = stack[k].1.clone();
        names.push(name);
        assert(names.deep_view() == before.push(name@));
        assert(wanted[k - lo] == stack.deep_view()[k as int].1);
        assert(wanted.take(k - lo + 1) == wanted.take(k - lo).push(wanted[k - lo]));
        k += 1;
    }
    assert(wanted.take(wanted.len() as int) == wanted);
    Some(names)
}

proof fn lemma_inserted_keeps_order(s: Seq<Placed>, x: Placed)
    requires
        forall|i: int, j: int| 0 <= i <= j < s.len() ==> (#[trigger] s[i]).0 <= (#[trigger] s[j]).0,
    ensures
        inserted(s, x).len() == s.len() + 1,
        inserted(s, x).to_multiset() == s.to_multiset().insert(x),
        forall|i: int, j: int|
            0 <= i <= j < inserted(s, x).len() ==> (#[trigger] inserted(s, x)[i]).0 <= (
            #[trigger] inserted(s, x)[j]).0,
    decreases s.len(),
{
    broadcast use vstd::seq_lib::group_to_multiset_ensures;

    if s.len() == 0 || s.last().0 <= x.0 {
    } else {
        let head = s.drop_last();
        lemma_inserted_keeps_order(head, x);
        let r = inserted(head, x);
        assert(s == head.push(s.last()));
        assert forall|i: int| 0 <= i < r.len() implies (#[trigger] r[i]).0 <= s.last().0 by {
            assert(r.to_multiset().count(r[i]) > 0);
            if r[i] != x {
                assert(head.to_multiset().count(r[i]) > 0);
                assert(head.contains(r[i]));
                let k = choose|k: int| 0 <= k < head.len() && head[k] == r[i];
                assert(s[k].0 <= s[s.len() - 1].0);
            }
        }
        assert(inserted(s, x).to_multiset() =~= s.to_multiset().insert(x));
    }
}

/// The copper stack holds the enabled copper layers, each as often as it is enabled, and goes
/// from the front of the board to its back.
pub proof fn copper_stack_is_ordered(enabled: Seq<LayerView>)
    ensures
        copper_stack(enabled).to_multiset() == gather(
            enabled,
            |l: LayerView| placed(l),
        ).to_multiset(),
        forall|i: int, j: int|
            0 <= i <= j < copper_stack(enabled).len() ==> (#[trigger] copper_stack(enabled)[i]).0
                <= (#[trigger] copper_stack(enabled)[j]).0,
{
    lemma_ordered(gather(enabled, |l: LayerView| placed(l)));
}

pub(crate) proof fn lemma_ordered(s: Seq<Placed>)
    ensures
        ordered(s).to_multiset() == s.to_multiset(),
        forall|i: int, j: int|
            0 <= i <= j < ordered(s).len() ==> (#[trigger] ordered(s)[i]).0 <= (
            #[trigger] ordered(s)[j]).0,
    decreases s.len(),
{
    broadcast use vstd::seq_lib::group_to_multiset_ensures;

    if s.len() > 0 {
        lemma_ordered(s.drop_last());
        lemma_inserted_keeps_order(ordered(s.drop_last()), s.last());
        assert(s == s.drop_last().push(s.last()));
    }
}

/// A via goes through the same layers from `a` to `b` as from `b` to `a`.
pub proof fn traversal_ignores_direction(enabled: Seq<LayerView>, a: Seq<char>, b: Seq<char>)
    ensures
        traversed(enabled, a, b) == traversed(enabled, b, a),
{
}

proof fn lemma_named_from(s: Seq<Placed>, name: Seq<char>, i: int)
    requires
        0 <= i,
    ensures
        named_from(s, name, i) matches Some(k) ==> i <= k < s.len() && s[k].1 == name,
    decreases s.len() - i,
{
    if i < s.len() && s[i].1 != name {
        lemma_named_from(s, name, i + 1);
    }
}

/// The layers that a via goes through start and end with the two layers it was asked for,
/// in the one order or the other.
pub proof fn traversal_ends_at_the_layers(
    enabled: Seq<LayerView>,
    start: Seq<char>,
    end: Seq<char>,
    layers: Seq<Seq<char>>,
)
    requires
        traversed(enabled, start, end) == Some(layers),
    ensures
        layers.len() > 0,
        (layers[0] == start && layers.last() == end) || (layers[0] == end && layers.last()
            == start),
{
    let stack = copper_stack(enabled);
    lemma_named_from(stack, start, 0);
    lemma_named_from(stack, end, 0);
}

/// Whether no two enabled copper layers of different names stand at the same place.
pub open spec fn places_are_distinct(enabled: Seq<LayerView>) -> bool {
    forall|i: int, j: int|
        0 <= i < enabled.len() && 0 <= j < enabled.len() && copper_index(
            (#[trigger] enabled[i]).name,
        ) is Some && copper_index(enabled[i].name) == copper_index(
            (#[trigger] enabled[j]).name,
        ) ==> enabled[i].name == enabled[j].name
}

/// A gathered sequence holds what is gathered without an item, and what that item gives.
proof fn lemma_gather_without(s: Seq<LayerView>, f: spec_fn(LayerView) -> Seq<Placed>, k: int)
    requires
        0 <= k < s.len(),
    ensures
        gather(s, f).to_multiset() == gather(s.remove(k), f).to_multiset().add(
            f(s[k]).to_multiset(),
        ),
    decreases s.len(),
{
    let head = gather(s.drop_last(), f);
    vstd::seq_lib::lemma_multiset_commutative(head, f(s.last()));
    if k == s.len() - 1 {
        assert(s.remove(k) == s.drop_last());
    } else {
        lemma_gather_without(s.drop_last(), f, k);
        assert(s.remove(k).drop_last() == s.drop_last().remove(k));
        assert(s.remove(k).last() == s.last());
        vstd::seq_lib::lemma_multiset_commutative(
            gather(s.drop_last().remove(k), f),
            f(s.last()),
        );
        assert(gather(s, f).to_multiset() =~= gather(s.remove(k), f).to_multiset().add(
            f(s[k]).to_multiset(),
        ));
    }
}

/// Sequences of the same items, in whichever order, gather the same entries.
proof fn lemma_gather_permuted(
    a: Seq<LayerView>,
    b: Seq<LayerView>,
    f: spec_fn(LayerView) -> Seq<Placed>,
)
    requires
        a.to_multiset() == b.to_multiset(),
    ensures
        gather(a, f).to_multiset() == gather(b, f).to_multiset(),
    decreases a.len(),
{
    broadcast use vstd::seq_lib::group_to_multiset_ensures;

    assert(a.to_multiset().len() == a.len() && b.to_multiset().len() == b.len());
    if a.len() > 0 {
        let last: int = a.len() - 1;
        assert(a.to_multiset().count(a[last]) > 0);
        assert(b.contains(a[last]));
        let k = choose|k: int| 0 <= k < b.len() && b[k] == a[last];
        assert(a.remove(last).to_multiset() == a.to_multiset().remove(a[last]));
        assert(b.remove(k).to_multiset() == b.to_multiset().remove(b[k]));
        lemma_gather_permuted(a.remove(last), b.remove(k), f);
        lemma_gather_without(a, f, last);
        lemma_gather_without(b, f, k);
    } else {
        assert(a == b);
    }
}

/// Ordered sequences of the same entries, in which each place has one entry, are the same.
proof fn lemma_order_is_unique(x: Seq<Placed>, y: Seq<Placed>)
    requires
        x.to_multiset() == y.to_multiset(),
        forall|i: int, j: int| 0 <= i <= j < x.len() ==> (#[trigger] x[i]).0 <= (#[trigger] x[j]).0,
        forall|i: int, j: int| 0 <= i <= j < y.len() ==> (#[trigger] y[i]).0 <= (#[trigger] y[j]).0,
        forall|i: int, j: int|
            0 <= i < x.len() && 0 <= j < x.len() && (#[trigger] x[i]).0 == (#[trigger] x[j]).0
                ==> x[i] == x[j],
    ensures
        x == y,
    decreases x.len(),
{
    broadcast use vstd::seq_lib::group_to_multiset_ensures;

    assert(x.to_multiset().len() == x.len() && y.to_multiset().len() == y.len());
    if x.len() > 0 {
        let last: int = x.len() - 1;
        assert(x.to_multiset().count(x[last]) > 0);
        assert(y.to_multiset().count(y[last]) > 0);
        assert(y.contains(x[last]) && x.contains(y[last]));
        let i = choose|i: int| 0 <= i < x.len() && x[i] == y[last];
        let j = choose|j: int| 0 <= j < y.len() && y[j] == x[last];
        assert(x[i].0 <= x[last].0);
        assert(y[j].0 <= y[last].0);
        assert(x[last] == y[last]);
        assert(x.remove(last) == x.drop_last() && y.remove(last) == y.drop_last());
        lemma_order_is_unique(x.drop_last(), y.drop_last());
        assert(x == x.drop_last().push(x[last]));
        assert(y == y.drop_last().push(y[last]));
    } else {
        assert(x == y);
    }
}

/// A via goes through the same layers whichever way the list of enabled layers is ordered.
/// Names that stand at one place, such as those of an inner layer written with a leading zero
/// and without, keep the order of the list, so the law leaves them out.
pub proof fn traversal_ignores_the_order_of_the_list(
    enabled: Seq<LayerView>,
    permuted: Seq<LayerView>,
    start: Seq<char>,
    end: Seq<char>,
)
    requires
        enabled.to_multiset() == permuted.to_multiset(),
        places_are_distinct(enabled),
    ensures
        copper_stack(enabled) == copper_stack(permuted),
        traversed(enabled, start, end) == traversed(permuted, start, end),
{
    broadcast use vstd::seq_lib::group_to_multiset_ensures;

    let pick = |l: LayerView| placed(l);
    let entries = gather(enabled, pick);
    let stack = copper_stack(enabled);
    lemma_gather_permuted(enabled, permuted, pick);
    lemma_ordered(entries);
    lemma_ordered(gather(permuted, pick));
    assert forall|i: int, j: int|
        0 <= i < stack.len() && 0 <= j < stack.len() && (#[trigger] stack[i]).0 == (
        #[trigger] stack[j]).0 implies stack[i] == stack[j] by {
        assert(stack.to_multiset().count(stack[i]) > 0);
        assert(stack.to_multiset().count(stack[j]) > 0);
        assert(entries.contains(stack[i]) && entries.contains(stack[j]));
        let k = choose|k: int| 0 <= k < entries.len() && entries[k] == stack[i];
        let l = choose|l: int| 0 <= l < entries.len() && entries[l] == stack[j];
        let a = lemma_gather_source(enabled, pick, k);
        let b = lemma_gather_source(enabled, pick, l);
        assert(copper_index(enabled[a.0].name) == copper_index(enabled[b.0].name));
    }
    lemma_order_is_unique(stack, copper_stack(permuted));
}

} // verus!
