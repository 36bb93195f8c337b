//! What the tools that change a board are asked to do.

use crate::json::{
    array_at, collect_points, number_or, optional_f64, optional_str, optional_text, points_in,
    read_of, refuse, require_f64, require_str, required_number, required_text, text_at, text_or,
    Json, Read, ToolError, ToolErrorView,
};
use crate::scalar::{Point, Scalar};
use vstd::prelude::*;
use vstd::string::*;

verus! {

// Lengths that are taken where none are given, in millimetres.

/// The bits of 0.1.
pub const TENTH: u64 = 0x3fb9_9999_9999_999a;

/// The bits of 0.2.
pub const FIFTH: u64 = 0x3fc9_9999_9999_999a;

/// The bits of 0.25.
pub const QUARTER: u64 = 0x3fd0_0000_0000_0000;

/// The bits of 0.4.
pub const TWO_FIFTHS: u64 = 0x3fd9_9999_9999_999a;

/// The bits of 0.8.
pub const FOUR_FIFTHS: u64 = 0x3fe9_9999_9999_999a;

// A trace.

/// A trace, as it is asked for.
#[derive(Debug)]
pub struct TraceRequest {
    pub net_name: String,
    pub layer: String,
    pub x1: Scalar,
    pub y1: Scalar,
    pub x2: Scalar,
    pub y2: Scalar,
    pub width: Scalar,
}

#[verifier::ext_equal]
pub struct TraceRequestView {
    pub net_name: Seq<char>,
    pub layer: Seq<char>,
    pub x1: Scalar,
    pub y1: Scalar,
    pub x2: Scalar,
    pub y2: Scalar,
    pub width: Scalar,
}

impl DeepView for TraceRequest {
    type V = TraceRequestView;

    open spec fn deep_view(&self) -> TraceRequestView {
        TraceRequestView {
            net_name: self.net_name@,
            layer: self.layer@,
            x1: self.x1,
            y1: self.y1,
            x2: self.x2,
            y2: self.y2,
            width: self.width,
        }
    }
}

pub open spec fn trace_request(args: Json) -> Read<TraceRequestView> {
    match (
        required_text(args, "net_name"@),
        required_text(args, "layer"@),
        required_number(args, "x1"@),
        required_number(args, "y1"@),
        required_number(args, "x2"@),
        required_number(args, "y2"@),
    ) {
        (Err(e), _, _, _, _, _) => Err(e),
        (_, Err(e), _, _, _, _) => Err(e),
        (_, _, Err(e), _, _, _) => Err(e),
        (_, _, _, Err(e), _, _) => Err(e),
        (_, _, _, _, Err(e), _) => Err(e),
        (_, _, _, _, _, Err(e)) => Err(e),
        (Ok(net_name), Ok(layer), Ok(x1), Ok(y1), Ok(x2), Ok(y2)) => Ok(
            TraceRequestView {
                net_name,
                layer,
                x1,
                y1,
                x2,
                y2,
                width: number_or(args, "width"@, QUARTER),
            },
        ),
    }
}

/// Reads what is asked for. The first argument that is amiss is named.
pub fn parse_trace(args: &Json) -> (r: Result<TraceRequest, ToolError>)
    ensures
        read_of(r) == trace_request(*args),
{
    let net_name = match require_str(args, "net_name") {
        Ok(value) => value,
        Err(e) => {
            return Err(e);
        },
    };
    let layer = match require_str(args, "layer") {
        Ok(value) => value,
        Err(e) => {
            return Err(e);
        },
    };
    let x1 = match require_f64(args, "x1") {
        Ok(value) => value,
        Err(e) => {
            return Err(e);
        },
    };
    let y1 = match require_f64(args, "y1") {
        Ok(value) => value,
        Err(e) => {
            return Err(e);
        },
    };
    let x2 = match require_f64(args, "x2") {
        Ok(value) => value,
        Err(e) => {
            return Err(e);
        },
    };
    let y2 = match require_f64(args, "y2") {
        Ok(value) => value,
        Err(e) => {
            return Err(e);
        },
    };
    Ok(
        TraceRequest {
            net_name,
            layer,
            x1,
            y1,
            x2,
            y2,
            width: optional_f64(args, "width", QUARTER),
        },
    )
}

// A route between two pads.

/// A route between two pads, as it is asked for.
#[derive(Debug)]
pub struct PadToPadRequest {
    pub net_name: String,
    pub ref1: String,
    pub pad1: String,
    pub ref2: String,
    pub pad2: String,
    pub layer: String,
    pub width: Scalar,
}

#[verifier::ext_equal]
pub struct PadToPadRequestView {
    pub net_name: Seq<char>,
    pub ref1: Seq<char>,
    pub pad1: Seq<char>,
    pub ref2: Seq<char>,
    pub pad2: Seq<char>,
    pub layer: Seq<char>,
    pub width: Scalar,
}

impl DeepView for PadToPadRequest {
    type V = PadToPadRequestView;

    open spec fn deep_view(&self) -> PadToPadRequestView {
        PadToPadRequestView {
            net_name: self.net_name@,
            ref1: self.ref1@,
            pad1: self.pad1@,
            ref2: self.ref2@,
            pad2: self.pad2@,
            layer: self.layer@,
            width: self.width,
        }
    }
}

pub open spec fn pad_to_pad_request(args: Json) -> Read<PadToPadRequestView> {
    match (
        required_text(args, "net_name"@),
        required_text(args, "ref1"@),
        required_text(args, "pad1"@),
        required_text(args, "ref2"@),
        required_text(args, "pad2"@),
    ) {
        (Err(e), _, _, _, _) => Err(e),
        (_, Err(e), _, _, _) => Err(e),
        (_, _, Err(e), _, _) => Err(e),
        (_, _, _, Err(e), _) => Err(e),
        (_, _, _, _, Err(e)) => Err(e),
        (Ok(net_name), Ok(ref1), Ok(pad1), Ok(ref2), Ok(pad2)) => Ok(
            PadToPadRequestView {
                net_name,
                ref1,
                pad1,
                ref2,
                pad2,
                layer: text_or(args, "layer"@, "F.Cu"@),
                width: number_or(args, "width"@, QUARTER),
            },
        ),
    }
}

/// Reads what is asked for. The first argument that is amiss is named.
pub fn parse_pad_to_pad(args: &Json) -> (r: Result<PadToPadRequest, ToolError>)
    ensures
        read_of(r) == pad_to_pad_request(*args),
{
    let net_name = match require_str(args, "net_name") {
        Ok(value) => value,
        Err(e) => {
            return Err(e);
        },
    };
    let ref1 = match require_str(args, "ref1") {
        Ok(value) => value,
        Err(e) => {
            return Err(e);
        },
    };
    let pad1 = match require_str(args, "pad1") {
        Ok(value) => value,
        Err(e) => {
            return Err(e);
        },
    };
    let ref2 = match require_str(args, "ref2") {
        Ok(value) => value,
        Err(e) => {
            return Err(e);
        },
    };
    let pad2 = match require_str(args, "pad2") {
        Ok(value) => value,
        Err(e) => {
            return Err(e);
        },
    };
    Ok(
        PadToPadRequest {
            net_name,
            ref1,
            pad1,
            ref2,
            pad2,
            layer: optional_str(args, "layer", "F.Cu"),
            width: optional_f64(args, "width", QUARTER),
        },
    )
}

// A via.

/// A via, as it is asked for.
#[derive(Debug)]
pub struct AddViaRequest {
    pub net_name: String,
    pub x: Scalar,
    pub y: Scalar,
    pub drill: Scalar,
    pub pad_size: Scalar,
}

#[verifier::ext_equal]
pub struct AddViaRequestView {
    pub net_name: Seq<char>,
    pub x: Scalar,
    pub y: Scalar,
    pub drill: Scalar,
    pub pad_size: Scalar,
}

impl DeepView for AddViaRequest {
    type V = AddViaRequestView;

    open spec fn deep_view(&self) -> AddViaRequestView {
        AddViaRequestView {
            net_name: self.net_name@,
            x: self.x,
            y: self.y,
            drill: self.drill,
            pad_size: self.pad_size,
        }
    }
}

pub open spec fn add_via_request(args: Json) -> Read<AddViaRequestView> {
    match (
        required_text(args, "net_name"@),
        required_number(args, "x"@),
        required_number(args, "y"@),
    ) {
        (Err(e), _, _) => Err(e),
        (_, Err(e), _) => Err(e),
        (_, _, Err(e)) => Err(e),
        (Ok(net_name), Ok(x), Ok(y)) => Ok(
            AddViaRequestView {
                net_name,
                x,
                y,
                drill: number_or(args, "drill"@, TWO_FIFTHS),
                pad_size: number_or(args, "pad_size"@, FOUR_FIFTHS),
            },
        ),
    }
}

/// Reads what is asked for. The first argument that is amiss is named.
pub fn parse_add_via(args: &Json) -> (r: Result<AddViaRequest, ToolError>)
    ensures
        read_of(r) == add_via_request(*args),
{
    let net_name = match require_str(args, "net_name") {
        Ok(value) => value,
        Err(e) => {
            return Err(e);
        },
    };
    let x = match require_f64(args, "x") {
        Ok(value) => value,
        Err(e) => {
            return Err(e);
        },
    };
    let y = match require_f64(args, "y") {
        Ok(value) => value,
        Err(e) => {
            return Err(e);
        },
    };
    Ok(
        AddViaRequest {
            net_name,
            x,
            y,
            drill: optional_f64(args, "drill", TWO_FIFTHS),
            pad_size: optional_f64(args, "pad_size", FOUR_FIFTHS),
        },
    )
}

// A differential pair.

/// A differential pair, as it is asked for.
#[derive(Debug)]
pub struct DiffPairRequest {
    pub net_pos: String,
    pub net_neg: String,
    pub layer: String,
    pub x1: Scalar,
    pub y1: Scalar,
    pub x2: Scalar,
    pub y2: Scalar,
    pub width: Scalar,
    pub gap: Scalar,
}

#[verifier::ext_equal]
pub struct DiffPairRequestView {
    pub net_pos: Seq<char>,
    pub net_neg: Seq<char>,
    pub layer: Seq<char>,
    pub x1: Scalar,
    pub y1: Scalar,
    pub x2: Scalar,
    pub y2: Scalar,
    pub width: Scalar,
    pub gap: Scalar,
}

impl DeepView for DiffPairRequest {
    type V = DiffPairRequestView;

    open spec fn deep_view(&self) -> DiffPairRequestView {
        DiffPairRequestView {
            net_pos: self.net_pos@,
            net_neg: self.net_neg@,
            layer: self.layer@,
            x1: self.x1,
            y1: self.y1,
            x2: self.x2,
            y2: self.y2,
            width: self.width,
            gap: self.gap,
        }
    }
}

pub open spec fn diff_pair_request(args: Json) -> Read<DiffPairRequestView> {
    match (
        required_text(args, "net_pos"@),
        required_text(args, "net_neg"@),
        required_number(args, "x1"@),
        required_number(args, "y1"@),
        required_number(args, "x2"@),
        required_number(args, "y2"@),
    ) {
        (Err(e), _, _, _, _, _) => Err(e),
        (_, Err(e), _, _, _, _) => Err(e),
        (_, _, Err(e), _, _, _) => Err(e),
        (_, _, _, Err(e), _, _) => Err(e),
        (_, _, _, _, Err(e), _) => Err(e),
        (_, _, _, _, _, Err(e)) => Err(e),
        (Ok(net_pos), Ok(net_neg), Ok(x1), Ok(y1), Ok(x2), Ok(y2)) => Ok(
            DiffPairRequestView {
                net_pos,
                net_neg,
                layer: text_or(args, "layer"@, "F.Cu"@),
                x1,
                y1,
                x2,
                y2,
                width: number_or(args, "width"@, TENTH),
                gap: number_or(args, "gap"@, TENTH),
            },
        ),
    }
}

/// Reads what is asked for. The first argument that is amiss is named.
pub fn parse_diff_pair(args: &Json) -> (r: Result<DiffPairRequest, ToolError>)
    ensures
        read_of(r) == diff_pair_request(*args),
{
    let net_pos = match require_str(args, "net_pos") {
        Ok(value) => value,
        Err(e) => {
            return Err(e);
        },
    };
    let net_neg = match require_str(args, "net_neg") {
        Ok(value) => value,
        Err(e) => {
            return Err(e);
        },
    };
    let x1 = match require_f64(args, "x1") {
        Ok(value) => value,
        Err(e) => {
            return Err(e);
        },
    };
    let y1 = match require_f64(args, "y1") {
        Ok(value) => value,
        Err(e) => {
            return Err(e);
        },
    };
    let x2 = match require_f64(args, "x2") {
        Ok(value) => value,
        Err(e) => {
            return Err(e);
        },
    };
    let y2 = match require_f64(args, "y2") {
        Ok(value) => value,
        Err(e) => {
            return Err(e);
        },
    };
    Ok(
        DiffPairRequest {
            net_pos,
            net_neg,
            layer: optional_str(args, "layer", "F.Cu"),
            x1,
            y1,
            x2,
            y2,
            width: optional_f64(args, "width", TENTH),
            gap: optional_f64(args, "gap", TENTH),
        },
    )
}

// A net class.

/// A net class, as it is asked for.
#[derive(Debug)]
pub struct NetclassRequest {
    pub name: String,
    pub clearance: Scalar,
    pub trace_width: Scalar,
    pub via_drill: Scalar,
    pub via_diameter: Scalar,
}

#[verifier::ext_equal]
pub struct NetclassRequestView {
    pub name: Seq<char>,
    pub clearance: Scalar,
    pub trace_width: Scalar,
    pub via_drill: Scalar,
    pub via_diameter: Scalar,
}

impl DeepView for NetclassRequest {
    type V = NetclassRequestView;

    open spec fn deep_view(&self) -> NetclassRequestView {
        NetclassRequestView {
            name: self.name@,
            clearance: self.clearance,
            trace_width: self.trace_width,
            via_drill: self.via_drill,
            via_diameter: self.via_diameter,
        }
    }
}

pub open spec fn netclass_request(args: Json) -> Read<NetclassRequestView> {
    match required_text(args, "name"@) {
        Err(e) => Err(e),
        Ok(name) => Ok(
            NetclassRequestView {
                name,
                clearance: number_or(args, "clearance"@, FIFTH),
                trace_width: number_or(args, "trace_width"@, QUARTER),
                via_drill: number_or(args, "via_drill"@, TWO_FIFTHS),
                via_diameter: number_or(args, "via_diameter"@, FOUR_FIFTHS),
            },
        ),
    }
}

/// Reads what is asked for. The first argument that is amiss is named.
pub fn parse_netclass(args: &Json) -> (r: Result<NetclassRequest, ToolError>)
    ensures
        read_of(r) == netclass_request(*args),
{
    let name = match require_str(args, "name") {
        Ok(value) => value,
        Err(e) => {
            return Err(e);
        },
    };
    Ok(
        NetclassRequest {
            name,
            clearance: optional_f64(args, "clearance", FIFTH),
            trace_width: optional_f64(args, "trace_width", QUARTER),
            via_drill: optional_f64(args, "via_drill", TWO_FIFTHS),
            via_diameter: optional_f64(args, "via_diameter", FOUR_FIFTHS),
        },
    )
}

// A net to put into a net class.

/// A net to put into a net class, as it is asked for.
#[derive(Debug)]
pub struct AssignNetRequest {
    pub net_name: String,
    pub netclass: String,
}

#[verifier::ext_equal]
pub struct AssignNetRequestView {
    pub net_name: Seq<char>,
    pub netclass: Seq<char>,
}

impl DeepView for AssignNetRequest {
    type V = AssignNetRequestView;

    open spec fn deep_view(&self) -> AssignNetRequestView {
        AssignNetRequestView {
            net_name: self.net_name@,
            netclass: self.netclass@,
        }
    }
}

pub open spec fn assign_net_request(args: Json) -> Read<AssignNetRequestView> {
    match (
        required_text(args, "net_name"@),
        required_text(args, "netclass"@),
    ) {
        (Err(e), _) => Err(e),
        (_, Err(e)) => Err(e),
        (Ok(net_name), Ok(netclass)) => Ok(
            AssignNetRequestView {
                net_name,
                netclass,
            },
        ),
    }
}

/// Reads what is asked for. The first argument that is amiss is named.
pub fn parse_assign_net(args: &Json) -> (r: Result<AssignNetRequest, ToolError>)
    ensures
        read_of(r) == assign_net_request(*args),
{
    let net_name = match require_str(args, "net_name") {
        Ok(value) => value,
        Err(e) => {
            return Err(e);
        },
    };
    let netclass = match require_str(args, "netclass") {
        Ok(value) => value,
        Err(e) => {
            return Err(e);
        },
    };
    Ok(
        AssignNetRequest {
            net_name,
            netclass,
        },
    )
}

// Traces to list.

/// Which traces to list.
#[derive(Debug)]
pub struct TraceQueryRequest {
    pub net_name: Option<String>,
    pub layer: Option<String>,
}

#[verifier::ext_equal]
pub struct TraceQueryRequestView {
    pub net_name: Option<Seq<char>>,
    pub layer: Option<Seq<char>>,
}

impl DeepView for TraceQueryRequest {
    type V = TraceQueryRequestView;

    open spec fn deep_view(&self) -> TraceQueryRequestView {
        TraceQueryRequestView {
            net_name: self.net_name.deep_view(),
            layer: self.layer.deep_view(),
        }
    }
}

pub open spec fn trace_query_request(args: Json) -> Read<TraceQueryRequestView> {
    Ok(
            TraceQueryRequestView {
                net_name: text_at(args, "net_name"@),
                layer: text_at(args, "layer"@),
            },
    )
}

/// Reads what is asked for.
pub fn parse_trace_query(args: &Json) -> (r: TraceQueryRequest)
    ensures
        Ok::<TraceQueryRequestView, ToolErrorView>(r.deep_view()) == trace_query_request(*args),
{
    TraceQueryRequest {
        net_name: optional_text(args, "net_name"),
        layer: optional_text(args, "layer"),
    }
}

// A trace that is to be replaced.

/// A trace that is to be replaced by another one.
#[derive(Debug)]
pub struct ModifyTraceRequest {
    pub uuid: String,
    pub trace: TraceRequest,
}

#[verifier::ext_equal]
pub struct ModifyTraceRequestView {
    pub uuid: Seq<char>,
    pub trace: TraceRequestView,
}

impl DeepView for ModifyTraceRequest {
    type V = ModifyTraceRequestView;

    open spec fn deep_view(&self) -> ModifyTraceRequestView {
        ModifyTraceRequestView { uuid: self.uuid@, trace: self.trace.deep_view() }
    }
}

pub open spec fn modify_trace_request(args: Json) -> Read<ModifyTraceRequestView> {
    match (required_text(args, "uuid"@), trace_request(args)) {
        (Err(e), _) => Err(e),
        (_, Err(e)) => Err(e),
        (Ok(uuid), Ok(trace)) => Ok(ModifyTraceRequestView { uuid, trace }),
    }
}

/// Reads what is asked for. The first argument that is amiss is named.
pub fn parse_modify_trace(args: &Json) -> (r: Result<ModifyTraceRequest, ToolError>)
    ensures
        read_of(r) == modify_trace_request(*args),
{
    let uuid = match require_str(args, "uuid") {
        Ok(value) => value,
        Err(e) => {
            return Err(e);
        },
    };
    let trace = match parse_trace(args) {
        Ok(value) => value,
        Err(e) => {
            return Err(e);
        },
    };
    Ok(ModifyTraceRequest { uuid, trace })
}

// A copper pour.

/// A copper pour, as it is asked for.
#[derive(Debug)]
pub struct CopperPourRequest {
    pub net_name: String,
    pub layer: String,
    pub clearance: Scalar,
    pub min_width: Scalar,
    pub points: Vec<Point>,
}

#[verifier::ext_equal]
pub struct CopperPourRequestView {
    pub net_name: Seq<char>,
    pub layer: Seq<char>,
    pub clearance: Scalar,
    pub min_width: Scalar,
    pub points: Seq<Point>,
}

impl DeepView for CopperPourRequest {
    type V = CopperPourRequestView;

    open spec fn deep_view(&self) -> CopperPourRequestView {
        CopperPourRequestView {
            net_name: self.net_name@,
            layer: self.layer@,
            clearance: self.clearance,
            min_width: self.min_width,
            points: self.points@,
        }
    }
}

/// A copper pour needs three points; values that are no points are passed over.
pub open spec fn copper_pour_request(args: Json) -> Read<CopperPourRequestView> {
    match (required_text(args, "net_name"@), required_text(args, "layer"@)) {
        (Err(e), _) => Err(e),
        (_, Err(e)) => Err(e),
        (Ok(net_name), Ok(layer)) => match array_at(args, "points"@) {
            None => Err(ToolErrorView::Said("Missing 'points' array"@)),
            Some(values) => if points_in(values).len() < 3 {
                Err(ToolErrorView::Said("Zone requires at least 3 points"@))
            } else {
                Ok(
                    CopperPourRequestView {
                        net_name,
                        layer,
                        clearance: number_or(args, "clearance"@, FIFTH),
                        min_width: number_or(args, "min_width"@, QUARTER),
                        points: points_in(values),
                    },
                )
            },
        },
    }
}

/// Reads what is asked for. The first argument that is amiss is named.
pub fn parse_copper_pour(args: &Json) -> (r: Result<CopperPourRequest, ToolError>)
    ensures
        read_of(r) == copper_pour_request(*args),
{
    let net_name = match require_str(args, "net_name") {
        Ok(value) => value,
        Err(e) => {
            return Err(e);
        },
    };
    let layer = match require_str(args, "layer") {
        Ok(value) => value,
        Err(e) => {
            return Err(e);
        },
    };
    let clearance = optional_f64(args, "clearance", FIFTH);
    let min_width = optional_f64(args, "min_width", QUARTER);
    let points = match args.get_array("points") {
        None => {
            return Err(refuse("Missing 'points' array"));
        },
        Some(values) => collect_points(values),
    };
    if points.len() < 3 {
        return Err(refuse("Zone requires at least 3 points"));
    }
    Ok(CopperPourRequest { net_name, layer, clearance, min_width, points })
}

} // verus!
