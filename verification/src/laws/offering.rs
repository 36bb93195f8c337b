//! What the tools offer, held against what their requests read.

use crate::json::{member, Json};
use crate::laws::asking::{
    a_checked_route_is_what_was_asked_for, a_checked_via_is_what_was_asked_for,
    a_net_class_is_what_was_asked_for, a_pair_is_what_was_asked_for, a_pour_is_what_was_asked_for,
    a_replaced_trace_is_what_was_asked_for, a_route_between_pads_is_what_was_asked_for,
    a_trace_is_what_was_asked_for, a_via_is_what_was_asked_for, an_assignment_is_what_was_asked_for,
};
use crate::requests::{
    add_via_request, assign_net_request, copper_pour_request, diff_pair_request,
    modify_trace_request, netclass_request, pad_to_pad_request, trace_request,
};
use crate::route_check::route_request;
use crate::scalar::Scalar;
use crate::tools::{tool_table, ParamDefault, ParamKind, ToolParam};
use crate::via_check::via_request;
use vstd::prelude::*;

verus! {

/// Whether an argument is given as what it has to be.
pub open spec fn is_offered(args: Json, param: ToolParam) -> bool {
    match param.kind {
        ParamKind::Text => member(args, param.name@) matches Some(Json::Text(_)),
        ParamKind::Number => member(args, param.name@) matches Some(Json::Number(_)),
        ParamKind::Positive => member(args, param.name@) matches Some(Json::Number(_)),
        ParamKind::NonNegative => member(args, param.name@) matches Some(Json::Number(_)),
        ParamKind::Region => member(args, param.name@) matches Some(Json::Object(_)),
        ParamKind::RoutePoints => member(args, param.name@) matches Some(Json::Array(_)),
        ParamKind::ZonePoints => member(args, param.name@) matches Some(Json::Array(_)),
        ParamKind::EndpointPads => member(args, param.name@) matches Some(Json::Array(_)),
    }
}

/// Whether every argument behind the board that a tool cannot do without is given.
pub open spec fn all_offered(args: Json, params: Seq<ToolParam>) -> bool {
    forall|k: int|
        0 < k < params.len() && (#[trigger] params[k]).required ==> is_offered(args, params[k])
}

/// Whether a number is read for an argument as the tool says: the one that is given, or else
/// the tool's default.
pub open spec fn is_read_as_offered(args: Json, param: ToolParam, name: Seq<char>, read: Scalar) -> bool {
    &&& param.name@ == name && !param.required && param.kind is Number
    &&& match member(args, name) {
        Some(Json::Number(given)) => read == given,
        _ => param.default matches ParamDefault::Number(bits) && read.bits == bits,
    }
}

/// The same for a text.
pub open spec fn is_text_as_offered(
    args: Json,
    param: ToolParam,
    name: Seq<char>,
    read: Seq<char>,
) -> bool {
    &&& param.name@ == name && !param.required && param.kind is Text
    &&& match member(args, name) {
        Some(Json::Text(given)) => read == given@,
        _ => param.default matches ParamDefault::Text(otherwise) && read == otherwise@,
    }
}

/// The tools stand in the order in which they are offered, each under its own name.
pub proof fn the_tools_stand_in_order()
    ensures
        tool_table().len() == 15,
        tool_table()[0].name@ == "get_routing_geometry"@,
        tool_table()[1].name@ == "check_route_clearance"@,
        tool_table()[2].name@ == "check_via_clearance"@,
        tool_table()[3].name@ == "add_net"@,
        tool_table()[4].name@ == "route_trace"@,
        tool_table()[5].name@ == "route_pad_to_pad"@,
        tool_table()[6].name@ == "add_via"@,
        tool_table()[7].name@ == "add_copper_pour"@,
        tool_table()[8].name@ == "delete_trace"@,
        tool_table()[9].name@ == "query_traces"@,
        tool_table()[10].name@ == "get_nets_list"@,
        tool_table()[11].name@ == "modify_trace"@,
        tool_table()[12].name@ == "create_netclass"@,
        tool_table()[13].name@ == "assign_net_to_class"@,
        tool_table()[14].name@ == "route_differential_pair"@,
{
}

proof fn lemma_trace_needs(args: Json)
    ensures
        crate::laws::asking::all_given(args, crate::laws::asking::trace_needs()) <==> all_offered(
            args,
            tool_table()[4].params,
        ),
{
    let w = crate::laws::asking::trace_needs();
    let p = tool_table()[4].params;
    assert(p.len() == 8);
    if crate::laws::asking::all_given(args, w) {
        assert(crate::laws::asking::is_given(args, w[0]));
        assert(crate::laws::asking::is_given(args, w[1]));
        assert(crate::laws::asking::is_given(args, w[2]));
        assert(crate::laws::asking::is_given(args, w[3]));
        assert(crate::laws::asking::is_given(args, w[4]));
        assert(crate::laws::asking::is_given(args, w[5]));
    }
    if all_offered(args, p) {
        assert(is_offered(args, p[1]) && is_offered(args, p[2]) && is_offered(args, p[3]));
        assert(is_offered(args, p[4]) && is_offered(args, p[5]) && is_offered(args, p[6]));
    }
}

/// A trace can be read just where all is given that its tool cannot do without, and its width
/// is read as the tool says.
pub proof fn a_trace_is_offered_as_it_is_read(args: Json)
    ensures
        trace_request(args) is Ok <==> all_offered(args, tool_table()[4].params),
        trace_request(args) matches Ok(r) ==> is_read_as_offered(
            args,
            tool_table()[4].params[7],
            "width"@,
            r.width,
        ),
{
    a_trace_is_what_was_asked_for(args);
    lemma_trace_needs(args);
}

/// The same of a trace that replaces another one.
pub proof fn a_replacement_is_offered_as_it_is_read(args: Json)
    ensures
        modify_trace_request(args) is Ok <==> all_offered(args, tool_table()[11].params),
        modify_trace_request(args) matches Ok(r) ==> is_read_as_offered(
            args,
            tool_table()[11].params[8],
            "width"@,
            r.trace.width,
        ),
{
    a_replaced_trace_is_what_was_asked_for(args);
    a_trace_is_what_was_asked_for(args);
    lemma_trace_needs(args);
    let p = tool_table()[11].params;
    let q = tool_table()[4].params;
    assert(p.len() == 9 && q.len() == 8);
    if all_offered(args, p) {
        assert(is_offered(args, p[1]) && is_offered(args, p[2]) && is_offered(args, p[3]));
        assert(is_offered(args, p[4]) && is_offered(args, p[5]) && is_offered(args, p[6]));
        assert(is_offered(args, p[7]));
        assert(all_offered(args, q));
    }
    if all_offered(args, q) {
        assert(is_offered(args, q[1]) && is_offered(args, q[2]) && is_offered(args, q[3]));
        assert(is_offered(args, q[4]) && is_offered(args, q[5]) && is_offered(args, q[6]));
    }
}

/// The same of a route between pads, which has a layer of its own by default.
pub proof fn a_route_between_pads_is_offered_as_it_is_read(args: Json)
    ensures
        pad_to_pad_request(args) is Ok <==> all_offered(args, tool_table()[5].params),
        pad_to_pad_request(args) matches Ok(r) ==> is_text_as_offered(
            args,
            tool_table()[5].params[6],
            "layer"@,
            r.layer,
        ) && is_read_as_offered(args, tool_table()[5].params[7], "width"@, r.width),
{
    a_route_between_pads_is_what_was_asked_for(args);
    let p = tool_table()[5].params;
    assert(p.len() == 8);
    if all_offered(args, p) {
        assert(is_offered(args, p[1]) && is_offered(args, p[2]) && is_offered(args, p[3]));
        assert(is_offered(args, p[4]) && is_offered(args, p[5]));
    }
}

/// The same of a via, whose sizes have defaults.
pub proof fn a_via_is_offered_as_it_is_read(args: Json)
    ensures
        add_via_request(args) is Ok <==> all_offered(args, tool_table()[6].params),
        add_via_request(args) matches Ok(r) ==> is_read_as_offered(
            args,
            tool_table()[6].params[4],
            "drill"@,
            r.drill,
        ) && is_read_as_offered(args, tool_table()[6].params[5], "pad_size"@, r.pad_size),
{
    a_via_is_what_was_asked_for(args);
    let p = tool_table()[6].params;
    assert(p.len() == 6);
    if all_offered(args, p) {
        assert(is_offered(args, p[1]) && is_offered(args, p[2]) && is_offered(args, p[3]));
    }
}

/// The same of a differential pair.
pub proof fn a_pair_is_offered_as_it_is_read(args: Json)
    ensures
        diff_pair_request(args) is Ok <==> all_offered(args, tool_table()[14].params),
        diff_pair_request(args) matches Ok(r) ==> is_text_as_offered(
            args,
            tool_table()[14].params[3],
            "layer"@,
            r.layer,
        ) && is_read_as_offered(args, tool_table()[14].params[8], "width"@, r.width)
            && is_read_as_offered(args, tool_table()[14].params[9], "gap"@, r.gap),
{
    a_pair_is_what_was_asked_for(args);
    let p = tool_table()[14].params;
    assert(p.len() == 10);
    if all_offered(args, p) {
        assert(is_offered(args, p[1]) && is_offered(args, p[2]));
        assert(is_offered(args, p[4]) && is_offered(args, p[5]) && is_offered(args, p[6]));
        assert(is_offered(args, p[7]));
    }
}

/// The same of a net class, of which only the name has to be given.
pub proof fn a_net_class_is_offered_as_it_is_read(args: Json)
    ensures
        netclass_request(args) is Ok <==> all_offered(args, tool_table()[12].params),
        netclass_request(args) matches Ok(r) ==> is_read_as_offered(
            args,
            tool_table()[12].params[2],
            "clearance"@,
            r.clearance,
        ) && is_read_as_offered(args, tool_table()[12].params[3], "trace_width"@, r.trace_width)
            && is_read_as_offered(args, tool_table()[12].params[4], "via_drill"@, r.via_drill)
            && is_read_as_offered(args, tool_table()[12].params[5], "via_diameter"@, r.via_diameter),
{
    a_net_class_is_what_was_asked_for(args);
    let p = tool_table()[12].params;
    assert(p.len() == 6);
    if all_offered(args, p) {
        assert(is_offered(args, p[1]));
    }
}

/// The same of an assignment of a net to a class.
pub proof fn an_assignment_is_offered_as_it_is_read(args: Json)
    ensures
        assign_net_request(args) is Ok <==> all_offered(args, tool_table()[13].params),
{
    an_assignment_is_what_was_asked_for(args);
    let p = tool_table()[13].params;
    assert(p.len() == 3);
    if all_offered(args, p) {
        assert(is_offered(args, p[1]) && is_offered(args, p[2]));
    }
}

/// A copper pour and what is checked can be read only where all is given that their tools
/// cannot do without; the sizes of a pour are read as its tool says.
pub proof fn pours_and_checks_need_what_is_offered(args: Json)
    ensures
        copper_pour_request(args) matches Ok(r) ==> all_offered(args, tool_table()[7].params)
            && is_read_as_offered(args, tool_table()[7].params[4], "clearance"@, r.clearance)
            && is_read_as_offered(args, tool_table()[7].params[5], "min_width"@, r.min_width),
        route_request(args) is Ok ==> all_offered(args, tool_table()[1].params),
        via_request(args) is Ok ==> all_offered(args, tool_table()[2].params),
{
    a_pour_is_what_was_asked_for(args);
    a_checked_route_is_what_was_asked_for(args);
    a_checked_via_is_what_was_asked_for(args);
    assert(tool_table()[7].params.len() == 6);
    assert(tool_table()[1].params.len() == 7);
    assert(tool_table()[2].params.len() == 9);
}

/// The other tools need, besides the board, a net's name, a trace's identifier, or nothing;
/// what they are filtered by may be left out.
pub proof fn the_other_tools_need_little()
    ensures
        tool_table()[0].params.len() == 4 && tool_table()[0].params[1].name@ == "layer"@
            && tool_table()[0].params[2].name@ == "net"@ && tool_table()[0].params[3].name@
            == "region"@ && tool_table()[0].params[3].kind is Region,
        !tool_table()[0].params[1].required && !tool_table()[0].params[2].required
            && !tool_table()[0].params[3].required,
        tool_table()[3].params.len() == 2 && tool_table()[3].params[1].name@ == "net_name"@
            && tool_table()[3].params[1].required && tool_table()[3].params[1].kind is Text,
        tool_table()[8].params.len() == 2 && tool_table()[8].params[1].name@ == "uuid"@
            && tool_table()[8].params[1].required && tool_table()[8].params[1].kind is Text,
        tool_table()[9].params.len() == 3 && tool_table()[9].params[1].name@ == "net_name"@
            && tool_table()[9].params[2].name@ == "layer"@ && !tool_table()[9].params[1].required
            && !tool_table()[9].params[2].required,
        tool_table()[10].params.len() == 1,
{
}

} // verus!
