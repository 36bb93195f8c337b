//! What is asked for is what the arguments say.

use crate::gather::gather;
use crate::json::{
    allowed_pads, member, member_from, points_in, region_in, route_points, AllowedPadView, Json,
    Member, Region, ToolErrorView,
};
use crate::laws::listing::{lemma_gather_lists, lists};
use crate::requests::{
    add_via_request, assign_net_request, copper_pour_request, diff_pair_request,
    modify_trace_request, netclass_request, pad_to_pad_request, trace_query_request, trace_request,
};
use crate::route_check::route_request;
use crate::scalar::{Point, Scalar};
use crate::via_check::via_request;
use vstd::prelude::*;

verus! {

// Members.

/// Whether `i` is the place of the first member with a name.
pub open spec fn is_first_member(members: Seq<Member>, name: Seq<char>, i: int) -> bool {
    &&& 0 <= i < members.len()
    &&& members[i].name@ == name
    &&& forall|j: int| 0 <= j < i ==> (#[trigger] members[j]).name@ != name
}

proof fn lemma_member_from(members: Seq<Member>, name: Seq<char>, i: int)
    requires
        0 <= i <= members.len(),
        forall|j: int| 0 <= j < i ==> (#[trigger] members[j]).name@ != name,
    ensures
        match member_from(members, name, i) {
            Some(found) => exists|k: int|
                #[trigger] is_first_member(members, name, k) && members[k].value == found,
            None => forall|j: int| 0 <= j < members.len() ==> (#[trigger] members[j]).name@ != name,
        },
    decreases members.len() - i,
{
    if i < members.len() {
        if members[i].name@ == name {
            assert(is_first_member(members, name, i));
        } else {
            lemma_member_from(members, name, i + 1);
        }
    }
}

/// A member of an object is the value of the first one with its name; there is none just
/// where no member has the name, or the value is no object.
pub proof fn a_member_is_the_first_with_its_name(value: Json, name: Seq<char>)
    ensures
        match (value, member(value, name)) {
            (Json::Object(members), Some(found)) => exists|k: int|
                #[trigger] is_first_member(members@, name, k) && members@[k].value == found,
            (Json::Object(members), None) => forall|j: int|
                0 <= j < members@.len() ==> (#[trigger] members@[j]).name@ != name,
            (_, found) => found is None,
        },
{
    if let Json::Object(members) = value {
        lemma_member_from(members@, name, 0);
    }
}

/// Whether an argument is a number.
pub open spec fn gives_number(args: Json, name: Seq<char>, number: Scalar) -> bool {
    member(args, name) matches Some(Json::Number(n)) && n == number
}

/// Whether an argument is a text.
pub open spec fn gives_text(args: Json, name: Seq<char>, text: Seq<char>) -> bool {
    member(args, name) matches Some(Json::Text(t)) && t@ == text
}

/// An argument that has to be given: its name, and whether it is a text or a number.
pub struct Wanted {
    pub name: Seq<char>,
    pub text: bool,
}

/// Whether an argument is given.
pub open spec fn is_given(args: Json, wanted: Wanted) -> bool {
    if wanted.text {
        member(args, wanted.name) matches Some(Json::Text(_))
    } else {
        member(args, wanted.name) matches Some(Json::Number(_))
    }
}

/// Whether all of some arguments are given.
pub open spec fn all_given(args: Json, wanted: Seq<Wanted>) -> bool {
    forall|k: int| 0 <= k < wanted.len() ==> is_given(args, #[trigger] wanted[k])
}

/// Whether a refusal names the first of some arguments that is not given.
pub open spec fn names_the_first_missing(
    refusal: ToolErrorView,
    args: Json,
    wanted: Seq<Wanted>,
) -> bool {
    exists|k: int|
        #![trigger wanted[k]]
        0 <= k < wanted.len() && !is_given(args, wanted[k]) && (forall|j: int|
            0 <= j < k ==> is_given(args, #[trigger] wanted[j])) && refusal == (
        if wanted[k].text {
            ToolErrorView::MissingText(wanted[k].name)
        } else {
            ToolErrorView::MissingNumber(wanted[k].name)
        })
}

/// Whether a number is the one that is given, or else the one of these bits.
pub open spec fn is_number_or(args: Json, name: Seq<char>, number: Scalar, bits: u64) -> bool {
    match member(args, name) {
        Some(Json::Number(n)) => number == n,
        _ => number.bits == bits,
    }
}

/// Whether a text is the one that is given, or else another one.
pub open spec fn is_text_or(
    args: Json,
    name: Seq<char>,
    text: Seq<char>,
    otherwise: Seq<char>,
) -> bool {
    match member(args, name) {
        Some(Json::Text(t)) => text == t@,
        _ => text == otherwise,
    }
}

// Traces.

/// The arguments that a trace needs.
pub open spec fn trace_needs() -> Seq<Wanted> {
    seq![
        Wanted { name: "net_name"@, text: true },
        Wanted { name: "layer"@, text: true },
        Wanted { name: "x1"@, text: false },
        Wanted { name: "y1"@, text: false },
        Wanted { name: "x2"@, text: false },
        Wanted { name: "y2"@, text: false },
    ]
}

/// A trace is asked for with its own net, layer and ends, and with a quarter of a millimetre
/// where no width is given. It is refused just where one of these is not given, and the first
/// such is named.
pub proof fn a_trace_is_what_was_asked_for(args: Json)
    ensures
        match trace_request(args) {
            Ok(r) => {
                &&& all_given(args, trace_needs())
                &&& gives_text(args, "net_name"@, r.net_name) && gives_text(
                    args,
                    "layer"@,
                    r.layer,
                )
                &&& gives_number(args, "x1"@, r.x1) && gives_number(args, "y1"@, r.y1)
                &&& gives_number(args, "x2"@, r.x2) && gives_number(args, "y2"@, r.y2)
                &&& is_number_or(args, "width"@, r.width, 0x3fd0_0000_0000_0000)
            },
            Err(refusal) => names_the_first_missing(refusal, args, trace_needs()),
        },
{
    let w = trace_needs();
    assert(w[0].text && w[1].text && !w[2].text && !w[3].text && !w[4].text && !w[5].text);
}

/// A trace that is to be replaced is asked for by its identifier, and the new one as any
/// trace is; the identifier is asked for first.
pub proof fn a_replaced_trace_is_what_was_asked_for(args: Json)
    ensures
        match modify_trace_request(args) {
            Ok(r) => gives_text(args, "uuid"@, r.uuid) && trace_request(args) == Ok::<
                _,
                ToolErrorView,
            >(r.trace),
            Err(refusal) => if member(args, "uuid"@) matches Some(Json::Text(_)) {
                names_the_first_missing(refusal, args, trace_needs())
            } else {
                refusal == ToolErrorView::MissingText("uuid"@)
            },
        },
{
    a_trace_is_what_was_asked_for(args);
}

/// Traces are listed by the net and by the layer that are given as texts.
pub proof fn a_trace_query_is_what_was_asked_for(args: Json)
    ensures
        trace_query_request(args) matches Ok(r) && (match r.net_name {
            Some(name) => gives_text(args, "net_name"@, name),
            None => !(member(args, "net_name"@) matches Some(Json::Text(_))),
        }) && match r.layer {
            Some(name) => gives_text(args, "layer"@, name),
            None => !(member(args, "layer"@) matches Some(Json::Text(_))),
        },
{
}

/// The arguments that a route between two pads needs.
pub open spec fn pad_to_pad_needs() -> Seq<Wanted> {
    seq![
        Wanted { name: "net_name"@, text: true },
        Wanted { name: "ref1"@, text: true },
        Wanted { name: "pad1"@, text: true },
        Wanted { name: "ref2"@, text: true },
        Wanted { name: "pad2"@, text: true },
    ]
}

/// A route between two pads is asked for with its own net and pads, on the front copper layer
/// and a quarter of a millimetre wide where nothing else is given.
pub proof fn a_route_between_pads_is_what_was_asked_for(args: Json)
    ensures
        match pad_to_pad_request(args) {
            Ok(r) => {
                &&& all_given(args, pad_to_pad_needs())
                &&& gives_text(args, "net_name"@, r.net_name)
                &&& gives_text(args, "ref1"@, r.ref1) && gives_text(args, "pad1"@, r.pad1)
                &&& gives_text(args, "ref2"@, r.ref2) && gives_text(args, "pad2"@, r.pad2)
                &&& is_text_or(args, "layer"@, r.layer, "F.Cu"@)
                &&& is_number_or(args, "width"@, r.width, 0x3fd0_0000_0000_0000)
            },
            Err(refusal) => names_the_first_missing(refusal, args, pad_to_pad_needs()),
        },
{
    let w = pad_to_pad_needs();
    assert(w[0].text && w[1].text && w[2].text && w[3].text && w[4].text);
}

/// The arguments that a via needs.
pub open spec fn add_via_needs() -> Seq<Wanted> {
    seq![
        Wanted { name: "net_name"@, text: true },
        Wanted { name: "x"@, text: false },
        Wanted { name: "y"@, text: false },
    ]
}

/// A via is asked for with its own net and place, with a hole of two fifths and a pad of four
/// fifths of a millimetre where no sizes are given.
pub proof fn a_via_is_what_was_asked_for(args: Json)
    ensures
        match add_via_request(args) {
            Ok(r) => {
                &&& all_given(args, add_via_needs())
                &&& gives_text(args, "net_name"@, r.net_name)
                &&& gives_number(args, "x"@, r.x) && gives_number(args, "y"@, r.y)
                &&& is_number_or(args, "drill"@, r.drill, 0x3fd9_9999_9999_999a)
                &&& is_number_or(args, "pad_size"@, r.pad_size, 0x3fe9_9999_9999_999a)
            },
            Err(refusal) => names_the_first_missing(refusal, args, add_via_needs()),
        },
{
    let w = add_via_needs();
    assert(w[0].text && !w[1].text && !w[2].text);
}

/// The arguments that a differential pair needs.
pub open spec fn pair_needs() -> Seq<Wanted> {
    seq![
        Wanted { name: "net_pos"@, text: true },
        Wanted { name: "net_neg"@, text: true },
        Wanted { name: "x1"@, text: false },
        Wanted { name: "y1"@, text: false },
        Wanted { name: "x2"@, text: false },
        Wanted { name: "y2"@, text: false },
    ]
}

/// A differential pair is asked for with its own nets and ends, on the front copper layer and
/// with a tenth of a millimetre for its width and its gap where nothing else is given.
pub proof fn a_pair_is_what_was_asked_for(args: Json)
    ensures
        match diff_pair_request(args) {
            Ok(r) => {
                &&& all_given(args, pair_needs())
                &&& gives_text(args, "net_pos"@, r.net_pos) && gives_text(
                    args,
                    "net_neg"@,
                    r.net_neg,
                )
                &&& gives_number(args, "x1"@, r.x1) && gives_number(args, "y1"@, r.y1)
                &&& gives_number(args, "x2"@, r.x2) && gives_number(args, "y2"@, r.y2)
                &&& is_text_or(args, "layer"@, r.layer, "F.Cu"@)
                &&& is_number_or(args, "width"@, r.width, 0x3fb9_9999_9999_999a)
                &&& is_number_or(args, "gap"@, r.gap, 0x3fb9_9999_9999_999a)
            },
            Err(refusal) => names_the_first_missing(refusal, args, pair_needs()),
        },
{
    let w = pair_needs();
    assert(w[0].text && w[1].text && !w[2].text && !w[3].text && !w[4].text && !w[5].text);
}

// Net classes.

/// A net class is asked for with its own name and sizes; sizes that are not given are those of
/// a signal: a fifth of a millimetre clear, a quarter wide, with vias of four fifths around
/// holes of two fifths.
pub proof fn a_net_class_is_what_was_asked_for(args: Json)
    ensures
        match netclass_request(args) {
            Ok(r) => {
                &&& gives_text(args, "name"@, r.name)
                &&& is_number_or(args, "clearance"@, r.clearance, 0x3fc9_9999_9999_999a)
                &&& is_number_or(args, "trace_width"@, r.trace_width, 0x3fd0_0000_0000_0000)
                &&& is_number_or(args, "via_drill"@, r.via_drill, 0x3fd9_9999_9999_999a)
                &&& is_number_or(args, "via_diameter"@, r.via_diameter, 0x3fe9_9999_9999_999a)
            },
            Err(refusal) => refusal == ToolErrorView::MissingText("name"@) && !(member(
                args,
                "name"@,
            ) matches Some(Json::Text(_))),
        },
{
}

/// The arguments that putting a net into a net class needs.
pub open spec fn assign_needs() -> Seq<Wanted> {
    seq![Wanted { name: "net_name"@, text: true }, Wanted { name: "netclass"@, text: true }]
}

/// A net is put into a net class by the names that are given.
pub proof fn an_assignment_is_what_was_asked_for(args: Json)
    ensures
        match assign_net_request(args) {
            Ok(r) => gives_text(args, "net_name"@, r.net_name) && gives_text(
                args,
                "netclass"@,
                r.netclass,
            ),
            Err(refusal) => names_the_first_missing(refusal, args, assign_needs()),
        },
{
    let w = assign_needs();
    assert(w[0].text && w[1].text);
}

// Points.

/// Whether a value is an object with both coordinates of a point.
pub open spec fn is_point(value: Json, p: Point) -> bool {
    gives_number(value, "x"@, p.x) && gives_number(value, "y"@, p.y)
}

/// Whether a value has both coordinates.
pub open spec fn has_coordinates(value: Json) -> bool {
    (member(value, "x"@) matches Some(Json::Number(_))) && (member(value, "y"@) matches Some(
        Json::Number(_),
    ))
}

/// The points of a route are those that are given, in order. They are refused just where they
/// are no list, one of them lacks a coordinate, or there are fewer than two.
pub proof fn the_points_of_a_route_are_those_that_are_given(args: Json)
    ensures
        match (route_points(args), member(args, "points"@)) {
            (Ok(points), Some(Json::Array(values))) => points.len() >= 2 && lists(
                points,
                values@,
                |p: Point, value: Json| is_point(value, p),
            ),
            (Err(refusal), Some(Json::Array(values))) => if exists|i: int|
                0 <= i < values@.len() && !has_coordinates(#[trigger] values@[i]) {
                refusal == ToolErrorView::Said("Every point requires numeric x and y"@)
            } else {
                values@.len() < 2 && refusal == ToolErrorView::Said(
                    "At least two ordered points are required"@,
                )
            },
            (read, _) => read == Err::<Seq<Point>, ToolErrorView>(
                ToolErrorView::Said("Missing 'points' array"@),
            ),
        },
{
    if let Some(Json::Array(values)) = member(args, "points"@) {
        assert forall|i: int| 0 <= i < values@.len() implies (crate::json::point_in(
            #[trigger] values@[i],
        ) is None <==> !has_coordinates(values@[i])) by {}
    }
}

/// A copper pour is asked for with its own net and layer and with the points that are given,
/// in order; values that lack a coordinate are passed over. It needs three points.
pub proof fn a_pour_is_what_was_asked_for(args: Json)
    ensures
        match copper_pour_request(args) {
            Ok(r) => {
                &&& gives_text(args, "net_name"@, r.net_name) && gives_text(
                    args,
                    "layer"@,
                    r.layer,
                )
                &&& is_number_or(args, "clearance"@, r.clearance, 0x3fc9_9999_9999_999a)
                &&& is_number_or(args, "min_width"@, r.min_width, 0x3fd0_0000_0000_0000)
                &&& r.points.len() >= 3
                &&& member(args, "points"@) matches Some(Json::Array(values)) && lists(
                    r.points,
                    values@.filter(|value: Json| has_coordinates(value)),
                    |p: Point, value: Json| is_point(value, p),
                )
            },
            Err(refusal) => if !(member(args, "net_name"@) matches Some(Json::Text(_))) {
                refusal == ToolErrorView::MissingText("net_name"@)
            } else if !(member(args, "layer"@) matches Some(Json::Text(_))) {
                refusal == ToolErrorView::MissingText("layer"@)
            } else {
                match member(args, "points"@) {
                    Some(Json::Array(values)) => values@.filter(
                        |value: Json| has_coordinates(value),
                    ).len() < 3,
                    _ => true,
                }
            },
        },
{
    if let Some(Json::Array(values)) = member(args, "points"@) {
        let f = |value: Json|
            match crate::json::point_in(value) {
                Some(p) => seq![p],
                None => Seq::empty(),
            };
        let keep = |value: Json| has_coordinates(value);
        let tells = |p: Point, value: Json| is_point(value, p);
        assert forall|a: Json| #[trigger] keep(a) implies f(a).len() == 1 && tells(f(a)[0], a) by {}
        assert forall|a: Json| !#[trigger] keep(a) implies f(a).len() == 0 by {}
        lemma_gather_lists(values@, f, keep, tells);
        assert(points_in(values@) == gather(values@, f));
    }
}

// Allowed pads.

/// Whether a value names a pad: both names are given and are not empty.
pub open spec fn names_pad(value: Json, pad: AllowedPadView) -> bool {
    &&& gives_text(value, "reference"@, pad.reference) && pad.reference.len() > 0
    &&& gives_text(value, "pad"@, pad.pad) && pad.pad.len() > 0
}

/// The pads that a route may touch are those that are named, in order: none where nothing is
/// said. They are refused just where they are no list, or one of them is not named in full.
pub proof fn the_allowed_pads_are_those_that_are_named(args: Json)
    ensures
        match (allowed_pads(args), member(args, "allowed_endpoint_pads"@)) {
            (Ok(pads), None) => pads.len() == 0,
            (Ok(pads), Some(Json::Array(values))) => lists(
                pads,
                values@,
                |pad: AllowedPadView, value: Json| names_pad(value, pad),
            ),
            (Err(_), Some(Json::Array(values))) => exists|i: int|
                0 <= i < values@.len() && forall|pad: AllowedPadView|
                    !names_pad(#[trigger] values@[i], pad),
            (read, other) => read is Err && other is Some,
        },
{
    if let Some(Json::Array(values)) = member(args, "allowed_endpoint_pads"@) {
        if exists|i: int|
            0 <= i < values@.len() && crate::json::allowed_pad_in(#[trigger] values@[i]) is None {
            let i = choose|i: int|
                0 <= i < values@.len() && crate::json::allowed_pad_in(
                    #[trigger] values@[i],
                ) is None;
            assert forall|pad: AllowedPadView| !names_pad(values@[i], pad) by {}
        }
    }
}

// Routes and vias to check.

/// A route is checked with the points, layer, net, width, clearance and pads that are given.
/// The width that is read is positive and the clearance is not negative; nothing else makes a
/// number be refused.
pub proof fn a_checked_route_is_what_was_asked_for(args: Json)
    ensures
        match route_request(args) {
            Ok(r) => {
                &&& route_points(args) == Ok::<Seq<Point>, ToolErrorView>(r.points)
                &&& allowed_pads(args) == Ok::<Seq<AllowedPadView>, ToolErrorView>(
                    r.allowed_endpoint_pads,
                )
                &&& gives_text(args, "layer"@, r.layer) && gives_text(args, "net"@, r.net)
                &&& gives_number(args, "trace_width"@, r.trace_width)
                &&& gives_number(args, "required_clearance"@, r.required_clearance)
            },
            Err(_) => {
                ||| route_points(args) is Err
                ||| allowed_pads(args) is Err
                ||| !(member(args, "layer"@) matches Some(Json::Text(_)))
                ||| !(member(args, "net"@) matches Some(Json::Text(_)))
                ||| !(member(args, "trace_width"@) matches Some(Json::Number(w)) && 0 < w.bits
                    <= 0x7ff0_0000_0000_0000)
                ||| !(member(args, "required_clearance"@) matches Some(Json::Number(c)) && (c.bits
                    <= 0x7ff0_0000_0000_0000 || c.bits == 0x8000_0000_0000_0000))
            },
        },
        route_request(args) matches Ok(r) ==> 0 < r.trace_width.bits <= 0x7ff0_0000_0000_0000 && (
        r.required_clearance.bits <= 0x7ff0_0000_0000_0000 || r.required_clearance.bits
            == 0x8000_0000_0000_0000),
{
}

/// Whether a number is greater than zero.
pub open spec fn is_positive(n: Scalar) -> bool {
    0 < n.bits <= 0x7ff0_0000_0000_0000
}

/// Whether a number, or what is none, may be a size of a via: it is not one that is zero or
/// less.
pub open spec fn may_be_size(n: Scalar) -> bool {
    is_positive(n) || n.not_a_number()
}

/// A via is checked with the place, sizes, net and layers that are given. Of its sizes, those
/// that are numbers are positive, the whole is greater than the hole, and the clearance is
/// not negative; where they are not, or anything is not given, it is refused.
pub proof fn a_checked_via_is_what_was_asked_for(args: Json)
    ensures
        match via_request(args) {
            Ok(r) => {
                &&& gives_number(args, "x"@, r.x) && gives_number(args, "y"@, r.y)
                &&& gives_number(args, "diameter"@, r.diameter)
                &&& gives_number(args, "drill"@, r.drill)
                &&& gives_number(args, "required_clearance"@, r.required_clearance)
                &&& gives_text(args, "net"@, r.net)
                &&& gives_text(args, "start_layer"@, r.start_layer)
                &&& gives_text(args, "end_layer"@, r.end_layer)
                &&& may_be_size(r.diameter) && may_be_size(r.drill)
                &&& !r.diameter.at_most(r.drill)
                &&& r.required_clearance.bits <= 0x8000_0000_0000_0000
                    || r.required_clearance.not_a_number()
            },
            Err(_) => {
                ||| !all_given(args, checked_via_needs())
                ||| exists|d: Scalar, h: Scalar, c: Scalar|
                    #![trigger gives_number(args, "diameter"@, d), gives_number(
                        args,
                        "drill"@,
                        h,
                    ), gives_number(args, "required_clearance"@, c)]
                    gives_number(args, "diameter"@, d) && gives_number(args, "drill"@, h)
                        && gives_number(args, "required_clearance"@, c) && !(may_be_size(d)
                        && may_be_size(h) && !d.at_most(h) && (c.bits <= 0x8000_0000_0000_0000
                        || c.not_a_number()))
            },
        },
        via_request(args) is Ok ==> all_given(args, checked_via_needs()),
{
    let w = checked_via_needs();
    assert(!w[0].text && !w[1].text && !w[2].text && !w[3].text && !w[4].text);
    assert(w[5].text && w[6].text && w[7].text);
    if via_request(args) is Err && all_given(args, w) {
        assert(is_given(args, w[0]) && is_given(args, w[1]) && is_given(args, w[2]));
        assert(is_given(args, w[3]) && is_given(args, w[4]) && is_given(args, w[5]));
        assert(is_given(args, w[6]) && is_given(args, w[7]));
        let d = member(args, "diameter"@)->Some_0->Number_0;
        let h = member(args, "drill"@)->Some_0->Number_0;
        let c = member(args, "required_clearance"@)->Some_0->Number_0;
        assert(gives_number(args, "diameter"@, d) && gives_number(args, "drill"@, h)
            && gives_number(args, "required_clearance"@, c));
    }
}

/// The arguments that checking a via needs.
pub open spec fn checked_via_needs() -> Seq<Wanted> {
    seq![
        Wanted { name: "x"@, text: false },
        Wanted { name: "y"@, text: false },
        Wanted { name: "diameter"@, text: false },
        Wanted { name: "drill"@, text: false },
        Wanted { name: "required_clearance"@, text: false },
        Wanted { name: "net"@, text: true },
        Wanted { name: "start_layer"@, text: true },
        Wanted { name: "end_layer"@, text: true },
    ]
}

// Regions.

/// A region is the one whose bounds are given; none where nothing is said. It is refused just
/// where it is no object, a bound is not a finite number, or a greatest bound is not above the
/// least one.
pub proof fn a_region_is_what_was_asked_for(args: Json)
    ensures
        match (region_in(args), member(args, "region"@)) {
            (Ok(None), said) => said is None,
            (Ok(Some(r)), Some(region)) => {
                &&& gives_number(region, "x_min"@, r.x_min) && gives_number(
                    region,
                    "x_max"@,
                    r.x_max,
                )
                &&& gives_number(region, "y_min"@, r.y_min) && gives_number(
                    region,
                    "y_max"@,
                    r.y_max,
                )
                &&& r.x_min.below(r.x_max) && r.y_min.below(r.y_max)
            },
            (Ok(Some(_)), None) => false,
            (Err(_), None) => false,
            (Err(_), Some(region)) => forall|r: Region|
                !(#[trigger] bounds(region, r) && r.x_min.finite() && r.x_max.finite()
                    && r.y_min.finite() && r.y_max.finite() && r.x_min.below(r.x_max)
                    && r.y_min.below(r.y_max)),
        },
{
}

/// Whether the bounds of a region are given.
pub open spec fn bounds(region: Json, r: Region) -> bool {
    &&& gives_number(region, "x_min"@, r.x_min) && gives_number(region, "x_max"@, r.x_max)
    &&& gives_number(region, "y_min"@, r.y_min) && gives_number(region, "y_max"@, r.y_max)
}

} // verus!
