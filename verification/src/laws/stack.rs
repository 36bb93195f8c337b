//! Layers and their names, and the layers that a via goes through.

use crate::board::LayerView;
use crate::gather::{gather, lemma_gather_in};
use crate::laws::numbers::a_number_is_read_as_it_was_written;
use crate::layers::{
    copper_index, copper_stack, layer_name, lemma_ordered, named_from, names_between, placed,
    places_are_distinct, traversed, Placed,
};
use crate::messages::BoardLayer;
use crate::text::{all_digits, decimal, digits_value};
use vstd::prelude::*;

verus! {

// Names.

/// A layer of the front and its like on the back.
pub open spec fn are_two_sides(front: BoardLayer, back: BoardLayer) -> bool {
    match front {
        BoardLayer::FCu => back is BCu,
        BoardLayer::FSilkS => back is BSilkS,
        BoardLayer::FMask => back is BMask,
        BoardLayer::FPaste => back is BPaste,
        BoardLayer::FCrtYd => back is BCrtYd,
        BoardLayer::FFab => back is BFab,
        _ => false,
    }
}

/// What the names of layers have behind the side.
pub open spec fn is_named_for(layer: BoardLayer, rest: Seq<char>) -> bool {
    match layer {
        BoardLayer::FCu | BoardLayer::BCu | BoardLayer::In1Cu | BoardLayer::In2Cu => rest == ".Cu"@,
        BoardLayer::FSilkS | BoardLayer::BSilkS => rest == ".SilkS"@,
        BoardLayer::FMask | BoardLayer::BMask => rest == ".Mask"@,
        BoardLayer::FPaste | BoardLayer::BPaste => rest == ".Paste"@,
        BoardLayer::FCrtYd | BoardLayer::BCrtYd => rest == ".CrtYd"@,
        BoardLayer::FFab | BoardLayer::BFab => rest == ".Fab"@,
        BoardLayer::EdgeCuts => rest == ".Cuts"@,
        BoardLayer::Other => rest.len() == 0,
    }
}

/// Layers are named for what they are: those of the front start with `F`, their likes on the
/// back with `B` and go on in the same way, inner layers start with their number behind `In`,
/// and no two layers have one name.
pub proof fn layers_are_named_for_what_they_are(a: BoardLayer, b: BoardLayer)
    ensures
        a != b ==> layer_name(a) != layer_name(b),
        are_two_sides(a, b) ==> layer_name(a)[0] == 'F' && layer_name(b)[0] == 'B' && layer_name(
            a,
        ).skip(1) == layer_name(b).skip(1) && is_named_for(a, layer_name(a).skip(1)),
        layer_name(BoardLayer::In1Cu) == "In1"@ + ".Cu"@,
        layer_name(BoardLayer::In2Cu) == "In2"@ + ".Cu"@,
        layer_name(BoardLayer::EdgeCuts) == "Edge"@ + ".Cuts"@,
        layer_name(BoardLayer::Other) == "Unknown"@,
{
    reveal_names();
    if are_two_sides(a, b) {
        assert(layer_name(a).skip(1) =~= layer_name(b).skip(1));
        match a {
            BoardLayer::FCu => {
                assert(layer_name(a).skip(1) =~= ".Cu"@);
            },
            BoardLayer::FSilkS => {
                assert(layer_name(a).skip(1) =~= ".SilkS"@);
            },
            BoardLayer::FMask => {
                assert(layer_name(a).skip(1) =~= ".Mask"@);
            },
            BoardLayer::FPaste => {
                assert(layer_name(a).skip(1) =~= ".Paste"@);
            },
            BoardLayer::FCrtYd => {
                assert(layer_name(a).skip(1) =~= ".CrtYd"@);
            },
            _ => {
                assert(layer_name(a).skip(1) =~= ".Fab"@);
            },
        }
    }
    assert(layer_name(BoardLayer::In1Cu) =~= "In1"@ + ".Cu"@);
    assert(layer_name(BoardLayer::In2Cu) =~= "In2"@ + ".Cu"@);
    assert(layer_name(BoardLayer::EdgeCuts) =~= "Edge"@ + ".Cuts"@);
    let (x, y) = (layer_name(a), layer_name(b));
    if a != b && x == y {
        assert(x.len() == y.len());
        assert(x[0] == y[0]);
        assert(x[2] == y[2]);
        assert(x[3] == y[3]);
    }
}

proof fn reveal_names()
    ensures
        "F.Cu"@ == seq!['F', '.', 'C', 'u'],
        "B.Cu"@ == seq!['B', '.', 'C', 'u'],
        "In1.Cu"@ == seq!['I', 'n', '1', '.', 'C', 'u'],
        "In2.Cu"@ == seq!['I', 'n', '2', '.', 'C', 'u'],
        "F.SilkS"@ == seq!['F', '.', 'S', 'i', 'l', 'k', 'S'],
        "B.SilkS"@ == seq!['B', '.', 'S', 'i', 'l', 'k', 'S'],
        "F.Mask"@ == seq!['F', '.', 'M', 'a', 's', 'k'],
        "B.Mask"@ == seq!['B', '.', 'M', 'a', 's', 'k'],
        "F.Paste"@ == seq!['F', '.', 'P', 'a', 's', 't', 'e'],
        "B.Paste"@ == seq!['B', '.', 'P', 'a', 's', 't', 'e'],
        "F.CrtYd"@ == seq!['F', '.', 'C', 'r', 't', 'Y', 'd'],
        "B.CrtYd"@ == seq!['B', '.', 'C', 'r', 't', 'Y', 'd'],
        "F.Fab"@ == seq!['F', '.', 'F', 'a', 'b'],
        "B.Fab"@ == seq!['B', '.', 'F', 'a', 'b'],
        "Edge.Cuts"@ == seq!['E', 'd', 'g', 'e', '.', 'C', 'u', 't', 's'],
        "Unknown"@ == seq!['U', 'n', 'k', 'n', 'o', 'w', 'n'],
        ".Cu"@ == seq!['.', 'C', 'u'],
        ".SilkS"@ == seq!['.', 'S', 'i', 'l', 'k', 'S'],
        ".Mask"@ == seq!['.', 'M', 'a', 's', 'k'],
        ".Paste"@ == seq!['.', 'P', 'a', 's', 't', 'e'],
        ".CrtYd"@ == seq!['.', 'C', 'r', 't', 'Y', 'd'],
        ".Fab"@ == seq!['.', 'F', 'a', 'b'],
        ".Cuts"@ == seq!['.', 'C', 'u', 't', 's'],
        "In1"@ == seq!['I', 'n', '1'],
        "In2"@ == seq!['I', 'n', '2'],
        "Edge"@ == seq!['E', 'd', 'g', 'e'],
        "In"@ == seq!['I', 'n'],
{
    reveal_strlit("F.Cu");
    reveal_strlit("B.Cu");
    reveal_strlit("In1.Cu");
    reveal_strlit("In2.Cu");
    reveal_strlit("F.SilkS");
    reveal_strlit("B.SilkS");
    reveal_strlit("F.Mask");
    reveal_strlit("B.Mask");
    reveal_strlit("F.Paste");
    reveal_strlit("B.Paste");
    reveal_strlit("F.CrtYd");
    reveal_strlit("B.CrtYd");
    reveal_strlit("F.Fab");
    reveal_strlit("B.Fab");
    reveal_strlit("Edge.Cuts");
    reveal_strlit("Unknown");
    reveal_strlit(".Cu");
    reveal_strlit(".SilkS");
    reveal_strlit(".Mask");
    reveal_strlit(".Paste");
    reveal_strlit(".CrtYd");
    reveal_strlit(".Fab");
    reveal_strlit(".Cuts");
    reveal_strlit("In1");
    reveal_strlit("In2");
    reveal_strlit("Edge");
    reveal_strlit("In");
    assert("F.Cu"@ =~= seq!['F', '.', 'C', 'u']);
    assert("B.Cu"@ =~= seq!['B', '.', 'C', 'u']);
    assert("In1.Cu"@ =~= seq!['I', 'n', '1', '.', 'C', 'u']);
    assert("In2.Cu"@ =~= seq!['I', 'n', '2', '.', 'C', 'u']);
    assert("F.SilkS"@ =~= seq!['F', '.', 'S', 'i', 'l', 'k', 'S']);
    assert("B.SilkS"@ =~= seq!['B', '.', 'S', 'i', 'l', 'k', 'S']);
    assert("F.Mask"@ =~= seq!['F', '.', 'M', 'a', 's', 'k']);
    assert("B.Mask"@ =~= seq!['B', '.', 'M', 'a', 's', 'k']);
    assert("F.Paste"@ =~= seq!['F', '.', 'P', 'a', 's', 't', 'e']);
    assert("B.Paste"@ =~= seq!['B', '.', 'P', 'a', 's', 't', 'e']);
    assert("F.CrtYd"@ =~= seq!['F', '.', 'C', 'r', 't', 'Y', 'd']);
    assert("B.CrtYd"@ =~= seq!['B', '.', 'C', 'r', 't', 'Y', 'd']);
    assert("F.Fab"@ =~= seq!['F', '.', 'F', 'a', 'b']);
    assert("B.Fab"@ =~= seq!['B', '.', 'F', 'a', 'b']);
    assert("Edge.Cuts"@ =~= seq!['E', 'd', 'g', 'e', '.', 'C', 'u', 't', 's']);
    assert("Unknown"@ =~= seq!['U', 'n', 'k', 'n', 'o', 'w', 'n']);
    assert(".Cu"@ =~= seq!['.', 'C', 'u']);
    assert(".SilkS"@ =~= seq!['.', 'S', 'i', 'l', 'k', 'S']);
    assert(".Mask"@ =~= seq!['.', 'M', 'a', 's', 'k']);
    assert(".Paste"@ =~= seq!['.', 'P', 'a', 's', 't', 'e']);
    assert(".CrtYd"@ =~= seq!['.', 'C', 'r', 't', 'Y', 'd']);
    assert(".Fab"@ =~= seq!['.', 'F', 'a', 'b']);
    assert(".Cuts"@ =~= seq!['.', 'C', 'u', 't', 's']);
    assert("In1"@ =~= seq!['I', 'n', '1']);
    assert("In2"@ =~= seq!['I', 'n', '2']);
    assert("Edge"@ =~= seq!['E', 'd', 'g', 'e']);
    assert("In"@ =~= seq!['I', 'n']);
}

// Places.

/// The front copper layer stands first, each inner layer at its number, and the back copper
/// layer behind the last that a board can have; no other layer has a place.
pub proof fn copper_layers_stand_in_order(n: usize, name: Seq<char>)
    ensures
        copper_index("F.Cu"@) == Some(0usize),
        copper_index("B.Cu"@) == Some(33usize),
        copper_index("In"@ + decimal(n as nat) + ".Cu"@) == Some(n),
        copper_index(name) is Some ==> name == "F.Cu"@ || name == "B.Cu"@ || exists|digits: Seq<char>|
            all_digits(digits) && (name == "In"@ + digits + ".Cu"@ || name == "In"@ + seq!['+']
                + digits + ".Cu"@) && digits_value(digits) == copper_index(name)->Some_0,
{
    reveal_names();
    a_number_is_read_as_it_was_written(n as nat);
    let digits = decimal(n as nat);
    let inner = "In"@ + digits + ".Cu"@;
    assert(inner[0] == 'I');
    assert(inner.take(2) =~= "In"@);
    assert(inner.skip(2).skip(inner.skip(2).len() - 3) =~= ".Cu"@);
    assert(inner.subrange(2, inner.len() - 3) =~= digits);
    assert(crate::text::is_digit(digits[0]));
    if copper_index(name) is Some && name != "F.Cu"@ && name != "B.Cu"@ {
        let number = name.subrange(2, name.len() - 3);
        assert(name.skip(2).len() >= 3);
        assert(name =~= name.take(2) + number + name.skip(2).skip(name.skip(2).len() - 3));
        if number.len() > 0 && number[0] == '+' {
            let own = number.skip(1);
            assert(number =~= seq!['+'] + own);
            assert(name =~= "In"@ + seq!['+'] + own + ".Cu"@);
        } else {
            assert(name =~= "In"@ + number + ".Cu"@);
        }
    }
}

// Traversal.

/// Whether a name is that of an enabled copper layer.
pub open spec fn is_enabled_copper(enabled: Seq<LayerView>, name: Seq<char>) -> bool {
    copper_index(name) is Some && exists|i: int|
        0 <= i < enabled.len() && (#[trigger] enabled[i]).name == name
}

/// Whether a copper layer lies between two others, or is one of them.
pub open spec fn lies_between(name: Seq<char>, a: Seq<char>, b: Seq<char>) -> bool {
    let (i, x, y) = (copper_index(name)->Some_0, copper_index(a)->Some_0, copper_index(b)->Some_0);
    x <= i <= y || y <= i <= x
}

proof fn lemma_stack_holds(enabled: Seq<LayerView>, p: Placed)
    ensures
        copper_stack(enabled).contains(p) <==> is_enabled_copper(enabled, p.1) && copper_index(
            p.1,
        ) == Some(p.0),
{
    broadcast use vstd::seq_lib::group_to_multiset_ensures;

    let pick = |l: LayerView| placed(l);
    let entries = gather(enabled, pick);
    lemma_ordered(entries);
    lemma_gather_in(enabled, pick, p);
    assert(copper_stack(enabled).contains(p) <==> copper_stack(enabled).to_multiset().count(p) > 0);
    assert(entries.contains(p) <==> entries.to_multiset().count(p) > 0);
    assert forall|i: int| 0 <= i < enabled.len() implies (pick(#[trigger] enabled[i]).contains(p)
        <==> enabled[i].name == p.1 && copper_index(p.1) == Some(p.0)) by {
        if let Some(index) = copper_index(enabled[i].name) {
            let own = pick(enabled[i]);
            assert(own =~= seq![(index, enabled[i].name)]);
            assert(own[0] == (index, enabled[i].name));
        }
    }
    if is_enabled_copper(enabled, p.1) && copper_index(p.1) == Some(p.0) {
        let i = choose|i: int| 0 <= i < enabled.len() && (#[trigger] enabled[i]).name == p.1;
        assert(pick(enabled[i]).contains(p));
    }
}

proof fn lemma_named_first(s: Seq<Placed>, name: Seq<char>, i: int)
    requires
        0 <= i,
    ensures
        match named_from(s, name, i) {
            Some(k) => i <= k < s.len() && s[k].1 == name && forall|j: int|
                i <= j < k ==> (#[trigger] s[j]).1 != name,
            None => forall|j: int| i <= j < s.len() ==> (#[trigger] s[j]).1 != name,
        },
    decreases s.len() - i,
{
    if i < s.len() && s[i].1 != name {
        lemma_named_first(s, name, i + 1);
    }
}

/// A via goes through just the enabled copper layers that lie between its two layers, these
/// included, from the front to the back. It has layers to go through just where both of its
/// own are enabled copper layers. Names that stand at one place are left out.
pub proof fn a_via_goes_through_what_lies_between(
    enabled: Seq<LayerView>,
    start: Seq<char>,
    end: Seq<char>,
    name: Seq<char>,
)
    requires
        places_are_distinct(enabled),
    ensures
        traversed(enabled, start, end) is Some <==> is_enabled_copper(enabled, start)
            && is_enabled_copper(enabled, end),
        traversed(enabled, start, end) matches Some(layers) ==> {
            &&& layers.contains(name) <==> is_enabled_copper(enabled, name) && lies_between(
                name,
                start,
                end,
            )
            &&& forall|i: int, j: int|
                0 <= i <= j < layers.len() ==> copper_index(#[trigger] layers[i])->Some_0
                    <= copper_index(#[trigger] layers[j])->Some_0
        },
{
    let stack = copper_stack(enabled);
    lemma_ordered(gather(enabled, |l: LayerView| placed(l)));
    lemma_named_first(stack, start, 0);
    lemma_named_first(stack, end, 0);
    assert forall|k: int| 0 <= k < stack.len() implies is_enabled_copper(
        enabled,
        (#[trigger] stack[k]).1,
    ) && copper_index(stack[k].1) == Some(stack[k].0) by {
        assert(stack.contains(stack[k]));
        lemma_stack_holds(enabled, stack[k]);
    }
    assert forall|own: Seq<char>| #[trigger] is_enabled_copper(enabled, own) implies exists|k: int|
        0 <= k < stack.len() && (#[trigger] stack[k]).1 == own by {
        let p: Placed = (copper_index(own)->Some_0, own);
        lemma_stack_holds(enabled, p);
        let k = choose|k: int| 0 <= k < stack.len() && stack[k] == p;
        assert(stack[k].1 == own);
    }
    if let Some(layers) = traversed(enabled, start, end) {
        let a = named_from(stack, start, 0)->Some_0;
        let b = named_from(stack, end, 0)->Some_0;
        let (lo, hi) = if a <= b {
            (a, b)
        } else {
            (b, a)
        };
        assert(layers == names_between(stack, a, b));
        assert forall|k: int| 0 <= k < layers.len() implies #[trigger] layers[k] == stack[lo
            + k].1 by {}
        if layers.contains(name) {
            let k = choose|k: int| 0 <= k < layers.len() && layers[k] == name;
            assert(stack[lo].0 <= stack[lo + k].0 <= stack[hi].0);
        }
        if is_enabled_copper(enabled, name) && lies_between(name, start, end) {
            let k = choose|k: int| 0 <= k < stack.len() && (#[trigger] stack[k]).1 == name;
            assert(stack[lo].0 <= stack[hi].0);
            if k < lo {
                assert(stack[k].0 <= stack[lo].0);
                lemma_same_place(enabled, stack[k].1, stack[lo].1);
            } else if k > hi {
                assert(stack[hi].0 <= stack[k].0);
                lemma_same_place(enabled, stack[k].1, stack[hi].1);
                assert(layers[hi - lo] == name);
            } else {
                assert(layers[k - lo] == name);
            }
        }
        assert forall|i: int, j: int| 0 <= i <= j < layers.len() implies copper_index(
            #[trigger] layers[i],
        )->Some_0 <= copper_index(#[trigger] layers[j])->Some_0 by {
            assert(stack[lo + i].0 <= stack[lo + j].0);
        }
    }
}

proof fn lemma_same_place(enabled: Seq<LayerView>, a: Seq<char>, b: Seq<char>)
    requires
        places_are_distinct(enabled),
        is_enabled_copper(enabled, a),
        is_enabled_copper(enabled, b),
    ensures
        copper_index(a) == copper_index(b) ==> a == b,
{
    let i = choose|i: int| 0 <= i < enabled.len() && (#[trigger] enabled[i]).name == a;
    let j = choose|j: int| 0 <= j < enabled.len() && (#[trigger] enabled[j]).name == b;
    assert(enabled[i].name == a && enabled[j].name == b);
}

} // verus!
