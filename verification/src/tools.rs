//! The routing tools and their arguments.

use crate::requests::{FIFTH, FOUR_FIFTHS, QUARTER, TENTH, TWO_FIFTHS};
use vstd::prelude::*;
use vstd::string::*;

verus! {

/// What an argument has to be.
#[derive(Clone, Copy, Debug, PartialEq, Eq, Structural)]
pub enum ParamKind {
    Text,
    Number,
    /// A number greater than zero.
    Positive,
    /// A number that is not negative.
    NonNegative,
    /// An object with the numbers `x_min`, `y_min`, `x_max` and `y_max`.
    Region,
    /// A list of at least two points, each with both coordinates.
    RoutePoints,
    /// A list of points.
    ZonePoints,
    /// A list of pads, each with its `reference` and its `pad`.
    EndpointPads,
}

/// What is taken for an argument that is not given.
#[derive(Clone, Copy, Debug)]
pub enum ParamDefault {
    Nothing,
    Text(&'static str),
    /// A number, by its bits.
    Number(u64),
}

/// An argument of a tool. An empty description stands for none.
#[derive(Clone, Copy, Debug)]
pub struct ToolParam {
    pub name: &'static str,
    pub kind: ParamKind,
    pub required: bool,
    pub default: ParamDefault,
    pub description: &'static str,
}

/// A tool.
#[derive(Debug)]
pub struct ToolDef {
    pub name: &'static str,
    pub description: &'static str,
    pub params: Vec<ToolParam>,
}

#[verifier::ext_equal]
pub struct ToolView {
    pub name: &'static str,
    pub description: &'static str,
    pub params: Seq<ToolParam>,
}

impl DeepView for ToolDef {
    type V = ToolView;

    open spec fn deep_view(&self) -> ToolView {
        ToolView { name: self.name, description: self.description, params: self.params@ }
    }
}

// Arguments.

/// A text that must be given.
#[verifier::allow_in_spec]
pub fn text_param(name: &'static str, description: &'static str) -> (r: ToolParam)
    returns
        (ToolParam {
            name,
            kind: ParamKind::Text,
            required: true,
            default: ParamDefault::Nothing,
            description,
        }),
{
    ToolParam {
        name,
        kind: ParamKind::Text,
        required: true,
        default: ParamDefault::Nothing,
        description,
    }
}

/// A text that may be left out.
#[verifier::allow_in_spec]
pub fn text_filter(name: &'static str, description: &'static str) -> (r: ToolParam)
    returns
        (ToolParam {
            name,
            kind: ParamKind::Text,
            required: false,
            default: ParamDefault::Nothing,
            description,
        }),
{
    ToolParam {
        name,
        kind: ParamKind::Text,
        required: false,
        default: ParamDefault::Nothing,
        description,
    }
}

/// A text with a default.
#[verifier::allow_in_spec]
pub fn text_default(name: &'static str, otherwise: &'static str) -> (r: ToolParam)
    returns
        (ToolParam {
            name,
            kind: ParamKind::Text,
            required: false,
            default: ParamDefault::Text(otherwise),
            description: "",
        }),
{
    ToolParam {
        name,
        kind: ParamKind::Text,
        required: false,
        default: ParamDefault::Text(otherwise),
        description: "",
    }
}

/// A number that must be given.
#[verifier::allow_in_spec]
pub fn number_param(name: &'static str) -> (r: ToolParam)
    returns
        (ToolParam {
            name,
            kind: ParamKind::Number,
            required: true,
            default: ParamDefault::Nothing,
            description: "",
        }),
{
    ToolParam {
        name,
        kind: ParamKind::Number,
        required: true,
        default: ParamDefault::Nothing,
        description: "",
    }
}

/// A number with a default.
#[verifier::allow_in_spec]
pub fn number_default(name: &'static str, otherwise: u64, description: &'static str) -> (r: ToolParam)
    returns
        (ToolParam {
            name,
            kind: ParamKind::Number,
            required: false,
            default: ParamDefault::Number(otherwise),
            description,
        }),
{
    ToolParam {
        name,
        kind: ParamKind::Number,
        required: false,
        default: ParamDefault::Number(otherwise),
        description,
    }
}

/// An argument of another kind.
#[verifier::allow_in_spec]
pub fn special_param(
    name: &'static str,
    kind: ParamKind,
    required: bool,
    description: &'static str,
) -> (r: ToolParam)
    returns
        (ToolParam { name, kind, required, default: ParamDefault::Nothing, description }),
{
    ToolParam { name, kind, required, default: ParamDefault::Nothing, description }
}

// The tools.

pub open spec fn get_routing_geometry_params() -> Seq<ToolParam> {
    seq![
        text_param("board", ""),
        text_filter("layer", "Optional layer filter"),
        text_filter("net", "Optional net-name filter"),
        special_param("region", ParamKind::Region, false, ""),
    ]
}

fn define_get_routing_geometry() -> (r: ToolDef)
    ensures
        r.deep_view() == (ToolView {
            name: "get_routing_geometry",
            description: "Read PCB routing geometry from the active KiCAD board without modifying it.",
            params: get_routing_geometry_params(),
        }),
{
    let params = vec![
        text_param("board", ""),
        text_filter("layer", "Optional layer filter"),
        text_filter("net", "Optional net-name filter"),
        special_param("region", ParamKind::Region, false, ""),
    ];
    assert(params@ == get_routing_geometry_params());
    ToolDef {
        name: "get_routing_geometry",
        description: "Read PCB routing geometry from the active KiCAD board without modifying it.",
        params,
    }
}

pub open spec fn check_route_clearance_params() -> Seq<ToolParam> {
    seq![
        text_param("board", ""),
        special_param("points", ParamKind::RoutePoints, true, ""),
        text_param("layer", ""),
        special_param("trace_width", ParamKind::Positive, true, ""),
        text_param("net", ""),
        special_param("required_clearance", ParamKind::NonNegative, true, ""),
        special_param("allowed_endpoint_pads", ParamKind::EndpointPads, false, "Exact pads that may contact a corresponding route start or end point; does not exempt neighboring pads or middle-of-route crossings."),
    ]
}

fn define_check_route_clearance() -> (r: ToolDef)
    ensures
        r.deep_view() == (ToolView {
            name: "check_route_clearance",
            description: "Read-only geometric preflight for a proposed PCB trace polyline; never creates or changes board items.",
            params: check_route_clearance_params(),
        }),
{
    let params = vec![
        text_param("board", ""),
        special_param("points", ParamKind::RoutePoints, true, ""),
        text_param("layer", ""),
        special_param("trace_width", ParamKind::Positive, true, ""),
        text_param("net", ""),
        special_param("required_clearance", ParamKind::NonNegative, true, ""),
        special_param("allowed_endpoint_pads", ParamKind::EndpointPads, false, "Exact pads that may contact a corresponding route start or end point; does not exempt neighboring pads or middle-of-route crossings."),
    ];
    assert(params@ == check_route_clearance_params());
    ToolDef {
        name: "check_route_clearance",
        description: "Read-only geometric preflight for a proposed PCB trace polyline; never creates or changes board items.",
        params,
    }
}

pub open spec fn check_via_clearance_params() -> Seq<ToolParam> {
    seq![
        text_param("board", ""),
        number_param("x"),
        number_param("y"),
        text_param("net", ""),
        special_param("diameter", ParamKind::Positive, true, ""),
        special_param("drill", ParamKind::Positive, true, ""),
        text_param("start_layer", ""),
        text_param("end_layer", ""),
        special_param("required_clearance", ParamKind::NonNegative, true, ""),
    ]
}

fn define_check_via_clearance() -> (r: ToolDef)
    ensures
        r.deep_view() == (ToolView {
            name: "check_via_clearance",
            description: "Read-only preflight for a proposed via across every traversed copper layer; never creates a via.",
            params: check_via_clearance_params(),
        }),
{
    let params = vec![
        text_param("board", ""),
        number_param("x"),
        number_param("y"),
        text_param("net", ""),
        special_param("diameter", ParamKind::Positive, true, ""),
        special_param("drill", ParamKind::Positive, true, ""),
        text_param("start_layer", ""),
        text_param("end_layer", ""),
        special_param("required_clearance", ParamKind::NonNegative, true, ""),
    ];
    assert(params@ == check_via_clearance_params());
    ToolDef {
        name: "check_via_clearance",
        description: "Read-only preflight for a proposed via across every traversed copper layer; never creates a via.",
        params,
    }
}

pub open spec fn add_net_params() -> Seq<ToolParam> {
    seq![
        text_param("board", ""),
        text_param("net_name", ""),
    ]
}

fn define_add_net() -> (r: ToolDef)
    ensures
        r.deep_view() == (ToolView {
            name: "add_net",
            description: "Add a new net entry to the PCB file (S-expression insert, no KiCAD IPC required).",
            params: add_net_params(),
        }),
{
    let params = vec![
        text_param("board", ""),
        text_param("net_name", ""),
    ];
    assert(params@ == add_net_params());
    ToolDef {
        name: "add_net",
        description: "Add a new net entry to the PCB file (S-expression insert, no KiCAD IPC required).",
        params,
    }
}

pub open spec fn route_trace_params() -> Seq<ToolParam> {
    seq![
        text_param("board", ""),
        text_param("net_name", ""),
        text_param("layer", "Copper layer (e.g. 'F.Cu')"),
        number_param("x1"),
        number_param("y1"),
        number_param("x2"),
        number_param("y2"),
        number_default("width", QUARTER, ""),
    ]
}

fn define_route_trace() -> (r: ToolDef)
    ensures
        r.deep_view() == (ToolView {
            name: "route_trace",
            description: "Route a trace segment between two points on a copper layer via KiCAD IPC.",
            params: route_trace_params(),
        }),
{
    let params = vec![
        text_param("board", ""),
        text_param("net_name", ""),
        text_param("layer", "Copper layer (e.g. 'F.Cu')"),
        number_param("x1"),
        number_param("y1"),
        number_param("x2"),
        number_param("y2"),
        number_default("width", QUARTER, ""),
    ];
    assert(params@ == route_trace_params());
    ToolDef {
        name: "route_trace",
        description: "Route a trace segment between two points on a copper layer via KiCAD IPC.",
        params,
    }
}

pub open spec fn route_pad_to_pad_params() -> Seq<ToolParam> {
    seq![
        text_param("board", ""),
        text_param("net_name", ""),
        text_param("ref1", "First component reference"),
        text_param("pad1", "First pad number"),
        text_param("ref2", "Second component reference"),
        text_param("pad2", "Second pad number"),
        text_default("layer", "F.Cu"),
        number_default("width", QUARTER, ""),
    ]
}

fn define_route_pad_to_pad() -> (r: ToolDef)
    ensures
        r.deep_view() == (ToolView {
            name: "route_pad_to_pad",
            description: "Route a direct trace between two pads of named components (L-bend routing) via KiCAD IPC.",
            params: route_pad_to_pad_params(),
        }),
{
    let params = vec![
        text_param("board", ""),
        text_param("net_name", ""),
        text_param("ref1", "First component reference"),
        text_param("pad1", "First pad number"),
        text_param("ref2", "Second component reference"),
        text_param("pad2", "Second pad number"),
        text_default("layer", "F.Cu"),
        number_default("width", QUARTER, ""),
    ];
    assert(params@ == route_pad_to_pad_params());
    ToolDef {
        name: "route_pad_to_pad",
        description: "Route a direct trace between two pads of named components (L-bend routing) via KiCAD IPC.",
        params,
    }
}

pub open spec fn add_via_params() -> Seq<ToolParam> {
    seq![
        text_param("board", ""),
        text_param("net_name", ""),
        number_param("x"),
        number_param("y"),
        number_default("drill", TWO_FIFTHS, "Drill diameter in mm"),
        number_default("pad_size", FOUR_FIFTHS, "Via pad diameter in mm"),
    ]
}

fn define_add_via() -> (r: ToolDef)
    ensures
        r.deep_view() == (ToolView {
            name: "add_via",
            description: "Add a through-hole via at a given position and assign it to a net via KiCAD IPC.",
            params: add_via_params(),
        }),
{
    let params = vec![
        text_param("board", ""),
        text_param("net_name", ""),
        number_param("x"),
        number_param("y"),
        number_default("drill", TWO_FIFTHS, "Drill diameter in mm"),
        number_default("pad_size", FOUR_FIFTHS, "Via pad diameter in mm"),
    ];
    assert(params@ == add_via_params());
    ToolDef {
        name: "add_via",
        description: "Add a through-hole via at a given position and assign it to a net via KiCAD IPC.",
        params,
    }
}

pub open spec fn add_copper_pour_params() -> Seq<ToolParam> {
    seq![
        text_param("board", ""),
        text_param("net_name", ""),
        text_param("layer", "Copper layer (e.g. 'F.Cu')"),
        special_param("points", ParamKind::ZonePoints, true, ""),
        number_default("clearance", FIFTH, ""),
        number_default("min_width", QUARTER, ""),
    ]
}

fn define_add_copper_pour() -> (r: ToolDef)
    ensures
        r.deep_view() == (ToolView {
            name: "add_copper_pour",
            description: "Add a copper fill zone polygon on a layer/net via S-expression file insert.",
            params: add_copper_pour_params(),
        }),
{
    let params = vec![
        text_param("board", ""),
        text_param("net_name", ""),
        text_param("layer", "Copper layer (e.g. 'F.Cu')"),
        special_param("points", ParamKind::ZonePoints, true, ""),
        number_default("clearance", FIFTH, ""),
        number_default("min_width", QUARTER, ""),
    ];
    assert(params@ == add_copper_pour_params());
    ToolDef {
        name: "add_copper_pour",
        description: "Add a copper fill zone polygon on a layer/net via S-expression file insert.",
        params,
    }
}

pub open spec fn delete_trace_params() -> Seq<ToolParam> {
    seq![
        text_param("board", ""),
        text_param("uuid", "UUID of the track segment to delete"),
    ]
}

fn define_delete_trace() -> (r: ToolDef)
    ensures
        r.deep_view() == (ToolView {
            name: "delete_trace",
            description: "Delete a trace segment identified by its UUID via KiCAD IPC.",
            params: delete_trace_params(),
        }),
{
    let params = vec![
        text_param("board", ""),
        text_param("uuid", "UUID of the track segment to delete"),
    ];
    assert(params@ == delete_trace_params());
    ToolDef {
        name: "delete_trace",
        description: "Delete a trace segment identified by its UUID via KiCAD IPC.",
        params,
    }
}

pub open spec fn query_traces_params() -> Seq<ToolParam> {
    seq![
        text_param("board", ""),
        text_filter("net_name", "Filter by net (optional)"),
        text_filter("layer", "Filter by layer (optional)"),
    ]
}

fn define_query_traces() -> (r: ToolDef)
    ensures
        r.deep_view() == (ToolView {
            name: "query_traces",
            description: "List trace segments on the board, optionally filtered by net and/or layer.",
            params: query_traces_params(),
        }),
{
    let params = vec![
        text_param("board", ""),
        text_filter("net_name", "Filter by net (optional)"),
        text_filter("layer", "Filter by layer (optional)"),
    ];
    assert(params@ == query_traces_params());
    ToolDef {
        name: "query_traces",
        description: "List trace segments on the board, optionally filtered by net and/or layer.",
        params,
    }
}

pub open spec fn get_nets_list_params() -> Seq<ToolParam> {
    seq![
        text_param("board", ""),
    ]
}

fn define_get_nets_list() -> (r: ToolDef)
    ensures
        r.deep_view() == (ToolView {
            name: "get_nets_list",
            description: "Return all nets defined on the PCB via KiCAD IPC.",
            params: get_nets_list_params(),
        }),
{
    let params = vec![
        text_param("board", ""),
    ];
    assert(params@ == get_nets_list_params());
    ToolDef {
        name: "get_nets_list",
        description: "Return all nets defined on the PCB via KiCAD IPC.",
        params,
    }
}

pub open spec fn modify_trace_params() -> Seq<ToolParam> {
    seq![
        text_param("board", ""),
        text_param("uuid", ""),
        text_param("net_name", ""),
        text_param("layer", ""),
        number_param("x1"),
        number_param("y1"),
        number_param("x2"),
        number_param("y2"),
        number_default("width", QUARTER, ""),
    ]
}

fn define_modify_trace() -> (r: ToolDef)
    ensures
        r.deep_view() == (ToolView {
            name: "modify_trace",
            description: "Modify a trace segment by deleting and re-adding it with new parameters.",
            params: modify_trace_params(),
        }),
{
    let params = vec![
        text_param("board", ""),
        text_param("uuid", ""),
        text_param("net_name", ""),
        text_param("layer", ""),
        number_param("x1"),
        number_param("y1"),
        number_param("x2"),
        number_param("y2"),
        number_default("width", QUARTER, ""),
    ];
    assert(params@ == modify_trace_params());
    ToolDef {
        name: "modify_trace",
        description: "Modify a trace segment by deleting and re-adding it with new parameters.",
        params,
    }
}

pub open spec fn create_netclass_params() -> Seq<ToolParam> {
    seq![
        text_param("board", ""),
        text_param("name", "Netclass name (e.g. 'Power')"),
        number_default("clearance", FIFTH, "Clearance in mm"),
        number_default("trace_width", QUARTER, "Default trace width in mm"),
        number_default("via_drill", TWO_FIFTHS, "Via drill diameter in mm"),
        number_default("via_diameter", FOUR_FIFTHS, "Via pad diameter in mm"),
    ]
}

fn define_create_netclass() -> (r: ToolDef)
    ensures
        r.deep_view() == (ToolView {
            name: "create_netclass",
            description: "Add a netclass definition to the board's design rules (S-expression file insert).",
            params: create_netclass_params(),
        }),
{
    let params = vec![
        text_param("board", ""),
        text_param("name", "Netclass name (e.g. 'Power')"),
        number_default("clearance", FIFTH, "Clearance in mm"),
        number_default("trace_width", QUARTER, "Default trace width in mm"),
        number_default("via_drill", TWO_FIFTHS, "Via drill diameter in mm"),
        number_default("via_diameter", FOUR_FIFTHS, "Via pad diameter in mm"),
    ];
    assert(params@ == create_netclass_params());
    ToolDef {
        name: "create_netclass",
        description: "Add a netclass definition to the board's design rules (S-expression file insert).",
        params,
    }
}

pub open spec fn assign_net_to_class_params() -> Seq<ToolParam> {
    seq![
        text_param("board", "Path to .kicad_pcb file"),
        text_param("net_name", "Net name to assign"),
        text_param("netclass", "Netclass name to assign the net to"),
    ]
}

fn define_assign_net_to_class() -> (r: ToolDef)
    ensures
        r.deep_view() == (ToolView {
            name: "assign_net_to_class",
            description: "Assign a net to an existing netclass in the PCB file (S-expression edit).",
            params: assign_net_to_class_params(),
        }),
{
    let params = vec![
        text_param("board", "Path to .kicad_pcb file"),
        text_param("net_name", "Net name to assign"),
        text_param("netclass", "Netclass name to assign the net to"),
    ];
    assert(params@ == assign_net_to_class_params());
    ToolDef {
        name: "assign_net_to_class",
        description: "Assign a net to an existing netclass in the PCB file (S-expression edit).",
        params,
    }
}

pub open spec fn route_differential_pair_params() -> Seq<ToolParam> {
    seq![
        text_param("board", ""),
        text_param("net_pos", "Positive net name"),
        text_param("net_neg", "Negative net name"),
        text_default("layer", "F.Cu"),
        number_param("x1"),
        number_param("y1"),
        number_param("x2"),
        number_param("y2"),
        number_default("width", TENTH, ""),
        number_default("gap", TENTH, "Gap between pair traces in mm"),
    ]
}

fn define_route_differential_pair() -> (r: ToolDef)
    ensures
        r.deep_view() == (ToolView {
            name: "route_differential_pair",
            description: "Route a differential pair (two parallel traces with a specified gap).",
            params: route_differential_pair_params(),
        }),
{
    let params = vec![
        text_param("board", ""),
        text_param("net_pos", "Positive net name"),
        text_param("net_neg", "Negative net name"),
        text_default("layer", "F.Cu"),
        number_param("x1"),
        number_param("y1"),
        number_param("x2"),
        number_param("y2"),
        number_default("width", TENTH, ""),
        number_default("gap", TENTH, "Gap between pair traces in mm"),
    ];
    assert(params@ == route_differential_pair_params());
    ToolDef {
        name: "route_differential_pair",
        description: "Route a differential pair (two parallel traces with a specified gap).",
        params,
    }
}

/// All routing tools, in the order in which they are offered.
pub open spec fn tool_table() -> Seq<ToolView> {
    seq![
        ToolView {
            name: "get_routing_geometry",
            description: "Read PCB routing geometry from the active KiCAD board without modifying it.",
            params: get_routing_geometry_params(),
        },
        ToolView {
            name: "check_route_clearance",
            description: "Read-only geometric preflight for a proposed PCB trace polyline; never creates or changes board items.",
            params: check_route_clearance_params(),
        },
        ToolView {
            name: "check_via_clearance",
            description: "Read-only preflight for a proposed via across every traversed copper layer; never creates a via.",
            params: check_via_clearance_params(),
        },
        ToolView {
            name: "add_net",
            description: "Add a new net entry to the PCB file (S-expression insert, no KiCAD IPC required).",
            params: add_net_params(),
        },
        ToolView {
            name: "route_trace",
            description: "Route a trace segment between two points on a copper layer via KiCAD IPC.",
            params: route_trace_params(),
        },
        ToolView {
            name: "route_pad_to_pad",
            description: "Route a direct trace between two pads of named components (L-bend routing) via KiCAD IPC.",
            params: route_pad_to_pad_params(),
        },
        ToolView {
            name: "add_via",
            description: "Add a through-hole via at a given position and assign it to a net via KiCAD IPC.",
            params: add_via_params(),
        },
        ToolView {
            name: "add_copper_pour",
            description: "Add a copper fill zone polygon on a layer/net via S-expression file insert.",
            params: add_copper_pour_params(),
        },
        ToolView {
            name: "delete_trace",
            description: "Delete a trace segment identified by its UUID via KiCAD IPC.",
            params: delete_trace_params(),
        },
        ToolView {
            name: "query_traces",
            description: "List trace segments on the board, optionally filtered by net and/or layer.",
            params: query_traces_params(),
        },
        ToolView {
            name: "get_nets_list",
            description: "Return all nets defined on the PCB via KiCAD IPC.",
            params: get_nets_list_params(),
        },
        ToolView {
            name: "modify_trace",
            description: "Modify a trace segment by deleting and re-adding it with new parameters.",
            params: modify_trace_params(),
        },
        ToolView {
            name: "create_netclass",
            description: "Add a netclass definition to the board's design rules (S-expression file insert).",
            params: create_netclass_params(),
        },
        ToolView {
            name: "assign_net_to_class",
            description: "Assign a net to an existing netclass in the PCB file (S-expression edit).",
            params: assign_net_to_class_params(),
        },
        ToolView {
            name: "route_differential_pair",
            description: "Route a differential pair (two parallel traces with a specified gap).",
            params: route_differential_pair_params(),
        },
    ]
}

/// All routing tools.
pub fn tools() -> (r: Vec<ToolDef>)
    ensures
        r.deep_view() == tool_table(),
{
    let all = vec![
        define_get_routing_geometry(),
        define_check_route_clearance(),
        define_check_via_clearance(),
        define_add_net(),
        define_route_trace(),
        define_route_pad_to_pad(),
        define_add_via(),
        define_add_copper_pour(),
        define_delete_trace(),
        define_query_traces(),
        define_get_nets_list(),
        define_modify_trace(),
        define_create_netclass(),
        define_assign_net_to_class(),
        define_route_differential_pair(),
    ];
    assert(all.deep_view() =~= tool_table());
    all
}

/// Every tool takes the board as its first argument and cannot do without it.
pub proof fn every_tool_names_its_board(i: int)
    requires
        0 <= i < tool_table().len(),
    ensures
        tool_table()[i].params.len() > 0,
        tool_table()[i].params[0].name == "board",
        tool_table()[i].params[0].required,
{
}

/// An argument that has a default need not be given.
pub proof fn defaults_are_for_optional_arguments(i: int, k: int)
    requires
        0 <= i < tool_table().len(),
        0 <= k < tool_table()[i].params.len(),
    ensures
        !(tool_table()[i].params[k].default is Nothing) ==> !tool_table()[i].params[k].required,
{
}

// What the inspections do not cover.

/// What a check of a route does not cover.
pub open spec fn uncovered_by_route_check() -> Seq<&'static str> {
    seq![
        "Custom, trapezoid, and chamfered-rectangle pad geometry is unsupported.",
        "Track arcs are reported but exact arc clearance is unsupported.",
        "Copper-zone filled polygons, holes, and fill-rule details are not modeled.",
        "Rule areas and KiCad design-rule/netclass overrides are not clearance-checked.",
        "Unsupported Edge.Cuts primitive types are not modeled.",
        "Ordinary courtyard curves and containment are not clearance-checked.",
    ]
}

/// What a check of a route does not cover.
pub fn unsupported_capabilities() -> (r: Vec<&'static str>)
    ensures
        r@ == uncovered_by_route_check(),
{
    let all = vec![
        "Custom, trapezoid, and chamfered-rectangle pad geometry is unsupported.",
        "Track arcs are reported but exact arc clearance is unsupported.",
        "Copper-zone filled polygons, holes, and fill-rule details are not modeled.",
        "Rule areas and KiCad design-rule/netclass overrides are not clearance-checked.",
        "Unsupported Edge.Cuts primitive types are not modeled.",
        "Ordinary courtyard curves and containment are not clearance-checked.",
    ];
    assert(all@ == uncovered_by_route_check());
    all
}

/// What routing geometry does not hold.
pub open spec fn missing_from_geometry() -> Seq<&'static str> {
    seq![
        "Edge.Cuts lines and arcs are exact IPC primitives; other Edge.Cuts primitive types are not emitted.",
        "Footprint body bounding boxes are unavailable; only IPC courtyard line/rectangle/polygon geometry is returned.",
        "Courtyard arcs/circles/beziers are not emitted because this tool does not approximate curves.",
        "Zone holes, arc nodes, and filled-copper polygons are not emitted; zone outline point nodes are returned.",
        "Track arcs are not included; tracks contains straight trace segments only.",
    ]
}

/// What routing geometry does not hold.
pub fn unavailable_geometry() -> (r: Vec<&'static str>)
    ensures
        r@ == missing_from_geometry(),
{
    let all = vec![
        "Edge.Cuts lines and arcs are exact IPC primitives; other Edge.Cuts primitive types are not emitted.",
        "Footprint body bounding boxes are unavailable; only IPC courtyard line/rectangle/polygon geometry is returned.",
        "Courtyard arcs/circles/beziers are not emitted because this tool does not approximate curves.",
        "Zone holes, arc nodes, and filled-copper polygons are not emitted; zone outline point nodes are returned.",
        "Track arcs are not included; tracks contains straight trace segments only.",
    ];
    assert(all@ == missing_from_geometry());
    all
}

} // verus!
