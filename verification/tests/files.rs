//! Edits to board files, and what the tools that change a board are asked to do.

use konnect::board_file::{
    add_copper_pour, add_net, assign_net_to_class, can_create_netclass, can_find_net_id,
    create_netclass, find_net_id, format_zone, Assignment, CornerText,
};
use konnect::flows::{
    find_pad_board_position, leg_orders, pair_orders, plan_legs, trace_order, FootprintEntry, Leg,
    PadEntry, PadPlace, PlaceEntry, PropertyEntry, TrackOrder,
};
use konnect::json::{Json, Member, ToolError};
use konnect::requests::{
    parse_add_via, parse_assign_net, parse_copper_pour, parse_diff_pair, parse_modify_trace,
    parse_netclass, parse_pad_to_pad, parse_trace, parse_trace_query,
};
use konnect::scalar::{Point, Scalar};

fn s(x: f64) -> Scalar {
    Scalar { bits: x.to_bits() }
}

fn pt(x: f64, y: f64) -> Point {
    Point { x: s(x), y: s(y) }
}

// Nets.

#[test]
fn a_net_gets_the_next_number() {
    let added = add_net("(kicad_pcb\n  (net 0 \"\")\n  (net 1 \"GND\")\n)\n", "VCC");
    assert_eq!(added.net_id, 2);
    assert_eq!(
        added.content,
        "(kicad_pcb\n  (net 0 \"\")\n  (net 1 \"GND\")\n\n  (net 2 \"VCC\"))\n"
    );
    let added = add_net("", "VCC");
    assert_eq!(added.net_id, 0);
    assert_eq!(added.content, "\n  (net 0 \"VCC\")");
}

#[test]
fn nets_are_numbered_one_after_another() {
    let first = add_net("(kicad_pcb (net 0 \"\"))", "A");
    let second = add_net(&first.content, "B");
    assert_eq!((first.net_id, second.net_id), (1, 2));
    assert_eq!(find_net_id(&second.content, "A"), 1);
    assert_eq!(find_net_id(&second.content, "B"), 2);
    let odd = add_net("(kicad_pcb)", "x(net y");
    assert_eq!((odd.net_id, add_net(&odd.content, "B").net_id), (0, 2));
}

#[test]
fn every_mention_of_a_net_counts() {
    let board = "(kicad_pcb (net 0 \"\") (net 1 \"GND\") (pad 1 (net 1 \"GND\")))";
    assert_eq!(add_net(board, "VCC").net_id, 3);
}

#[test]
fn net_numbers_end_at_a_space_or_at_the_name() {
    assert_eq!(find_net_id("(net 7  \"GND\")", "GND"), 7);
    assert_eq!(find_net_id("(net -7  \"GND\")", "GND"), -7);
    assert_eq!(find_net_id("(net 7 \"GND\")", "GND"), 7);
    assert_eq!(find_net_id("(kicad_pcb (net 0 \"\") (net 1 \"GND\"))", "GND"), 1);
    assert_eq!(find_net_id("(net x \"GND\")", "GND"), 0);
    assert_eq!(find_net_id("(net 7x  \"GND\")", "GND"), 0);
    assert_eq!(find_net_id("(net 99999999999  \"GND\")", "GND"), 0);
    assert_eq!(find_net_id("(net 7  \"GND\")", "VCC"), 0);
}

#[test]
fn a_number_must_be_within_the_text() {
    assert!(can_find_net_id("(net 7  \"GND\")", "GND"));
    assert!(can_find_net_id("", "GND"));
    assert!(!can_find_net_id("abc \"GND\")", "GND"));
    assert!(can_find_net_id("abcde \"GND\")", "GND"));
    assert!(!can_find_net_id("abcd\u{e9} \"GND\")", "GND"));
}

// Zones.

fn corners() -> Vec<CornerText> {
    [("0", "0"), ("10", "0"), ("10", "5.5")]
        .iter()
        .map(|(x, y)| CornerText { x: x.to_string(), y: y.to_string() })
        .collect()
}

const ZONE: &str = "\n  (zone (net 7) (net_name \"GND\") (layer \"F.Cu\") (uuid \"u1\")\n    \
     (hatch edge 0.508)\n    (connect_pads (clearance 0.2))\n    (min_thickness 0.25)\n    \
     (fill yes)\n    (polygon (pts\n      (xy 0 0)\n      (xy 10 0)\n      (xy 10 5.5)\n    \
     ))\n  )";

#[test]
fn a_zone_is_written_out() {
    assert_eq!(format_zone(7, "GND", "F.Cu", "u1", "0.2", "0.25", &corners()), ZONE);
}

#[test]
fn a_pour_goes_before_the_last_parenthesis() {
    let board = "(kicad_pcb (net 7 \"GND\"))\n";
    assert_eq!(
        add_copper_pour(board, "GND", "F.Cu", "u1", "0.2", "0.25", &corners()),
        format!("(kicad_pcb (net 7 \"GND\"){ZONE})\n")
    );
}

// Net classes.

const POWER: &str = "\n      (netclass \"Power\"\n        (clearance 0.2)\n        \
     (trace_width 0.5)\n        (via_drill 0.4)\n        (via_diameter 0.8)\n      )";

fn with_power(board: &str) -> String {
    create_netclass(board, "Power", "0.2", "0.5", "0.4", "0.8")
}

#[test]
fn a_net_class_goes_into_its_block() {
    assert_eq!(
        with_power("(pcb\n    (net_classes\n    )\n)"),
        format!("(pcb\n    (net_classes{POWER}\n    )\n)")
    );
    assert_eq!(
        with_power("(pcb (net_classes) (x))"),
        format!("(pcb (net_classes{POWER}) (x))")
    );
    assert_eq!(
        with_power("(pcb (net_classes (netclass \"A\" (clearance 0.1))) (x))"),
        format!("(pcb (net_classes (netclass \"A\" (clearance 0.1{POWER}))) (x))")
    );
    assert_eq!(
        with_power("(pcb (net_classes (a\n    )\n  ) (x))"),
        format!("(pcb (net_classes (a{POWER}\n    )\n  ) (x))")
    );
    assert_eq!(with_power("(pcb (x))"), format!("(pcb (x){POWER})"));
    assert_eq!(with_power("(net_classes!"), format!("(net_classes{POWER}!"));
    assert_eq!(with_power(""), POWER);
}

#[test]
fn an_unclosed_block_must_end_in_one_byte() {
    assert!(can_create_netclass("(net_classes!"));
    assert!(!can_create_netclass("(net_classes \u{e9}"));
    assert!(can_create_netclass("(net_classes \u{e9})"));
    assert!(can_create_netclass("\u{e9}"));
}

fn assigned(board: &str, net: &str, class: &str) -> String {
    match assign_net_to_class(board, net, class) {
        Ok(Assignment::Assigned(content)) => content,
        other => panic!("{other:?}"),
    }
}

#[test]
fn a_net_is_assigned_once() {
    let board = "(pcb (netclass \"Power\" (clearance 0.2)) (netclass \"Fast\"))";
    let after = assigned(board, "GND", "Power");
    assert_eq!(
        after,
        "(pcb (netclass \"Power\" (clearance 0.2)\n        (net \"GND\")) (netclass \"Fast\"))"
    );
    assert!(matches!(
        assign_net_to_class(&after, "GND", "Power"),
        Ok(Assignment::AlreadyAssigned)
    ));
    assert_eq!(
        assigned(&after, "GND", "Fast"),
        "(pcb (netclass \"Power\" (clearance 0.2)\n        (net \"GND\")) (netclass \"Fast\"\n        \
         (net \"GND\")))"
    );
}

#[test]
fn an_added_class_is_found_again() {
    let board = with_power("(pcb (net_classes))");
    assert!(matches!(
        assign_net_to_class(&board, "GND", "Power"),
        Ok(Assignment::Assigned(_))
    ));
}

#[test]
fn an_unknown_class_takes_no_net() {
    match assign_net_to_class("(pcb)", "GND", "Power") {
        Err(ToolError::Said(message)) => {
            assert_eq!(message, "Netclass 'Power' not found in board file");
        }
        other => panic!("{other:?}"),
    }
}

#[test]
fn an_unclosed_class_takes_a_net_at_its_start() {
    let board = "(netclass \"Power\"";
    let once = assigned(board, "GND", "Power");
    assert_eq!(once, "\n        (net \"GND\")(netclass \"Power\"");
    assert_eq!(
        assigned(&once, "GND", "Power"),
        "\n        (net \"GND\")\n        (net \"GND\")(netclass \"Power\""
    );
}

// Pads.

fn place(x: Option<f64>, y: Option<f64>, rotation: Option<f64>) -> Option<PlaceEntry> {
    Some(PlaceEntry { x: x.map(s), y: y.map(s), rotation: rotation.map(s) })
}

fn property(name: &str, value: &str) -> PropertyEntry {
    PropertyEntry { name: Some(name.into()), value: Some(value.into()) }
}

fn entry(reference: &str, pads: Vec<PadEntry>) -> FootprintEntry {
    FootprintEntry {
        properties: vec![property("Value", "10k"), property("Reference", reference)],
        at: place(Some(100.0), Some(50.0), Some(90.0)),
        pads,
    }
}

fn pad(number: &str, at: Option<PlaceEntry>) -> PadEntry {
    PadEntry { number: Some(number.into()), at }
}

#[test]
fn a_pad_is_found_with_its_footprint() {
    let footprints = vec![
        entry("R1", vec![]),
        entry(
            "R2",
            vec![pad("1", place(Some(1.0), Some(2.0), None)), pad("2", place(None, None, None))],
        ),
    ];
    assert_eq!(
        find_pad_board_position(&footprints, "R2", "1").unwrap(),
        PadPlace { local: pt(1.0, 2.0), anchor: pt(100.0, 50.0), rotation: s(90.0) }
    );
    assert_eq!(find_pad_board_position(&footprints, "R2", "2").unwrap().local, pt(0.0, 0.0));
}

#[test]
fn what_is_missing_of_a_pad_is_named() {
    let footprints = vec![entry("R1", vec![pad("1", None)])];
    let said = |reference, number| match find_pad_board_position(&footprints, reference, number) {
        Ok(found) => panic!("{found:?}"),
        Err(error) => error.describe(),
    };
    assert_eq!(said("R9", "1"), "Footprint 'R9' not found on board");
    assert_eq!(said("R1", "9"), "Pad '9' not found on 'R1'");
    assert_eq!(said("R1", "1"), "Pad has no (at) node");
}

#[test]
fn a_route_between_pads_bends_once() {
    let (a, b) = (pt(0.0, 0.0), pt(3.0, 4.0));
    assert_eq!(plan_legs(a, b, true), vec![Leg { from: a, to: b }]);
    let bend = pt(3.0, 0.0);
    assert_eq!(plan_legs(a, b, false), vec![Leg { from: a, to: bend }, Leg { from: bend, to: b }]);
}

// Requests.

fn n(x: f64) -> Json {
    Json::Number(s(x))
}

fn t(x: &str) -> Json {
    Json::Text(x.into())
}

fn object(members: Vec<(&str, Json)>) -> Json {
    Json::Object(
        members.into_iter().map(|(name, value)| Member { name: name.into(), value }).collect(),
    )
}

fn refused<T>(read: Result<T, ToolError>) -> String {
    match read {
        Ok(_) => panic!("it was read"),
        Err(ToolError::MissingText(name)) => format!("text {name}"),
        Err(ToolError::MissingNumber(name)) => format!("number {name}"),
        Err(ToolError::Said(message)) => message,
    }
}

fn trace_args() -> Vec<(&'static str, Json)> {
    vec![
        ("net_name", t("GND")),
        ("layer", t("F.Cu")),
        ("x1", n(1.0)),
        ("y1", n(2.0)),
        ("x2", n(3.0)),
        ("y2", n(4.0)),
    ]
}

#[test]
fn a_trace_has_a_default_width() {
    let read = parse_trace(&object(trace_args())).unwrap();
    assert_eq!((read.net_name.as_str(), read.layer.as_str()), ("GND", "F.Cu"));
    assert_eq!([read.x1, read.y1, read.x2, read.y2], [s(1.0), s(2.0), s(3.0), s(4.0)]);
    assert_eq!(read.width, s(0.25));
    let mut wide = trace_args();
    wide.push(("width", n(0.5)));
    assert_eq!(parse_trace(&object(wide)).unwrap().width, s(0.5));
}

#[test]
fn the_first_missing_argument_is_named() {
    assert_eq!(refused(parse_trace(&object(vec![]))), "text net_name");
    let mut args = trace_args();
    args.remove(3);
    assert_eq!(refused(parse_trace(&object(args))), "number y1");
    let mut args = trace_args();
    args[2] = ("x1", t("1"));
    assert_eq!(refused(parse_trace(&object(args))), "number x1");
    assert_eq!(refused(parse_modify_trace(&object(trace_args()))), "text uuid");
    let mut args = trace_args();
    args.push(("uuid", t("u1")));
    let read = parse_modify_trace(&object(args)).unwrap();
    assert_eq!(read.uuid, "u1");
    assert_eq!(read.trace.x2, s(3.0));
}

#[test]
fn a_route_between_pads_is_read() {
    let args = || {
        vec![
            ("net_name", t("GND")),
            ("ref1", t("R1")),
            ("pad1", t("1")),
            ("ref2", t("R2")),
            ("pad2", t("2")),
        ]
    };
    let read = parse_pad_to_pad(&object(args())).unwrap();
    assert_eq!((read.ref1.as_str(), read.pad1.as_str()), ("R1", "1"));
    assert_eq!((read.ref2.as_str(), read.pad2.as_str()), ("R2", "2"));
    assert_eq!((read.layer.as_str(), read.width), ("F.Cu", s(0.25)));
    let mut short = args();
    short.pop();
    assert_eq!(refused(parse_pad_to_pad(&object(short))), "text pad2");
}

#[test]
fn a_via_has_default_sizes() {
    let read = parse_add_via(&object(vec![("net_name", t("GND")), ("x", n(1.0)), ("y", n(2.0))]));
    let read = read.unwrap();
    assert_eq!((read.drill, read.pad_size), (s(0.4), s(0.8)));
    assert_eq!(
        refused(parse_add_via(&object(vec![("net_name", t("GND")), ("x", n(1.0))]))),
        "number y"
    );
}

#[test]
fn a_pair_has_default_sizes() {
    let read = parse_diff_pair(&object(vec![
        ("net_pos", t("D+")),
        ("net_neg", t("D-")),
        ("layer", t("F.Cu")),
        ("x1", n(0.0)),
        ("y1", n(0.0)),
        ("x2", n(5.0)),
        ("y2", n(0.0)),
    ]))
    .unwrap();
    assert_eq!((read.net_pos.as_str(), read.net_neg.as_str()), ("D+", "D-"));
    assert_eq!((read.width, read.gap), (s(0.1), s(0.1)));
    assert_eq!(refused(parse_diff_pair(&object(vec![("net_pos", t("D+"))]))), "text net_neg");
}

fn ordered<'a>(order: &TrackOrder<'a>) -> (&'a str, &'a str, Scalar, Leg) {
    let line = Leg { from: order.from, to: order.to };
    (order.net_name, order.layer, order.width, line)
}

#[test]
fn a_pair_is_ordered_positive_net_first() {
    let request = parse_diff_pair(&object(vec![
        ("net_pos", t("D+")),
        ("net_neg", t("D-")),
        ("layer", t("B.Cu")),
        ("x1", n(0.0)),
        ("y1", n(0.0)),
        ("x2", n(5.0)),
        ("y2", n(0.0)),
        ("width", n(0.2)),
    ]))
    .unwrap();
    let positive = Leg { from: pt(0.0, 0.15), to: pt(5.0, 0.15) };
    let negative = Leg { from: pt(0.0, -0.15), to: pt(5.0, -0.15) };
    let orders = pair_orders(&request, positive, negative);
    assert_eq!(orders.len(), 2);
    assert_eq!(ordered(&orders[0]), ("D+", "B.Cu", s(0.2), positive));
    assert_eq!(ordered(&orders[1]), ("D-", "B.Cu", s(0.2), negative));
}

#[test]
fn a_trace_is_ordered_as_it_is_asked_for() {
    let trace = parse_trace(&object(trace_args())).unwrap();
    let line = Leg { from: pt(1.0, 2.0), to: pt(3.0, 4.0) };
    assert_eq!(ordered(&trace_order(&trace)), ("GND", "F.Cu", s(0.25), line));
}

#[test]
fn each_piece_of_a_route_is_ordered() {
    let request = parse_pad_to_pad(&object(vec![
        ("net_name", t("GND")),
        ("ref1", t("R1")),
        ("pad1", t("1")),
        ("ref2", t("R2")),
        ("pad2", t("2")),
    ]))
    .unwrap();
    let legs = plan_legs(pt(0.0, 0.0), pt(3.0, 4.0), false);
    let orders = leg_orders(&request, &legs);
    assert_eq!(orders.len(), 2);
    assert_eq!(ordered(&orders[0]), ("GND", "F.Cu", s(0.25), legs[0]));
    assert_eq!(ordered(&orders[1]), ("GND", "F.Cu", s(0.25), legs[1]));
}

#[test]
fn a_net_class_has_default_sizes() {
    let read = parse_netclass(&object(vec![("name", t("Power"))])).unwrap();
    assert_eq!(read.name, "Power");
    assert_eq!((read.clearance, read.trace_width), (s(0.2), s(0.25)));
    assert_eq!((read.via_drill, read.via_diameter), (s(0.4), s(0.8)));
    assert_eq!(refused(parse_netclass(&object(vec![]))), "text name");
}

#[test]
fn other_requests_are_read() {
    let read = parse_assign_net(&object(vec![("net_name", t("GND")), ("netclass", t("Power"))]));
    let read = read.unwrap();
    assert_eq!((read.net_name.as_str(), read.netclass.as_str()), ("GND", "Power"));
    assert_eq!(
        refused(parse_assign_net(&object(vec![("net_name", t("GND"))]))),
        "text netclass"
    );
    let read = parse_trace_query(&object(vec![("layer", t("F.Cu")), ("net_name", n(1.0))]));
    assert_eq!((read.net_name.as_deref(), read.layer.as_deref()), (None, Some("F.Cu")));
}

#[test]
fn a_pour_needs_three_points() {
    let corner = |x, y| object(vec![("x", n(x)), ("y", n(y))]);
    let args = |points| {
        object(vec![("net_name", t("GND")), ("layer", t("F.Cu")), ("points", Json::Array(points))])
    };
    let read = parse_copper_pour(&args(vec![
        corner(0.0, 0.0),
        t("no point"),
        corner(1.0, 0.0),
        corner(1.0, 1.0),
    ]));
    let read = read.unwrap();
    assert_eq!(read.points, vec![pt(0.0, 0.0), pt(1.0, 0.0), pt(1.0, 1.0)]);
    assert_eq!((read.clearance, read.min_width), (s(0.2), s(0.25)));
    assert_eq!(
        refused(parse_copper_pour(&args(vec![corner(0.0, 0.0), corner(1.0, 0.0)]))),
        "Zone requires at least 3 points"
    );
    assert_eq!(
        refused(parse_copper_pour(&object(vec![("net_name", t("GND")), ("layer", t("F.Cu"))]))),
        "Missing 'points' array"
    );
}
