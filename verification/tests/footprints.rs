//! Footprints put together from library definitions. The placing is done here, in floats.

use konnect::envelope::{Environment, KiCadIpcClient};
use konnect::footprint_item::{
    graphic_spots, pad_drill, reference_spot, value_spot, FieldSpot, FootprintChild,
    FootprintItem, IpcFieldPlacement, IpcGraphicDefinition, IpcPadDefinition, LayerCodes, PadHole,
    PadItem, PadKind, PlacedGraphic, PlacedPad, PlacedText, Placement, ShapeGeometry,
};
use konnect::messages::{PadStackShape, Vector2};
use konnect::scalar::{Point, Scalar};

fn s(x: f64) -> Scalar {
    Scalar { bits: x.to_bits() }
}

fn f(x: Scalar) -> f64 {
    f64::from_bits(x.bits)
}

fn pt(x: f64, y: f64) -> Point {
    Point { x: s(x), y: s(y) }
}

fn vec2(x: f64, y: f64) -> Vector2 {
    Vector2 { x_nm: (x * 1_000_000.0).round() as i64, y_nm: (y * 1_000_000.0).round() as i64 }
}

// Where footprint-local points come to lie on the board, whose Y axis points down.

fn transform_pad(lx: f64, ly: f64, x: f64, y: f64, rotation: f64) -> (f64, f64) {
    let (sin, cos) = rotation.to_radians().sin_cos();
    (x + lx * cos + ly * sin, y - lx * sin + ly * cos)
}

fn is_cardinal_rotation(rotation: f64) -> bool {
    let r = rotation.rem_euclid(90.0);
    r.abs() < 1e-9 || (90.0 - r).abs() < 1e-9
}

fn readable_text_angle(deg: f64) -> f64 {
    let angle = deg.rem_euclid(360.0);
    if angle > 90.0 && angle <= 270.0 {
        angle - 180.0
    } else {
        angle
    }
}

struct Pose {
    x: f64,
    y: f64,
    rotation: f64,
}

impl Pose {
    fn at(&self, p: Point) -> Vector2 {
        let (x, y) = transform_pad(f(p.x), f(p.y), self.x, self.y, self.rotation);
        vec2(x, y)
    }

    fn text(&self, spot: FieldSpot) -> PlacedText {
        PlacedText {
            position: self.at(spot.at),
            angle: s(readable_text_angle(self.rotation + f(spot.rotation))),
        }
    }
}

const UNDEFINED: i32 = 1;

fn codes() -> LayerCodes {
    LayerCodes {
        undefined: UNDEFINED,
        f_cu: 3,
        b_cu: 34,
        f_mask: 39,
        b_mask: 40,
        f_paste: 37,
        b_paste: 38,
    }
}

fn layer_code(name: &str) -> i32 {
    match name {
        "F.Cu" => 3,
        "B.Cu" => 34,
        "F.Mask" => 39,
        "B.Mask" => 40,
        _ => UNDEFINED,
    }
}

fn place(
    pads: &[IpcPadDefinition],
    graphics: &[IpcGraphicDefinition],
    fields: &IpcFieldPlacement,
    pose: &Pose,
) -> Placement {
    let cardinal = is_cardinal_rotation(pose.rotation);
    Placement {
        position: vec2(pose.x, pose.y),
        orientation: s(pose.rotation),
        cardinal,
        reference: pose.text(reference_spot(fields)),
        value: pose.text(value_spot(fields)),
        pads: pads
            .iter()
            .map(|pad| PlacedPad {
                position: pose.at(pad.at),
                size: vec2(f(pad.size.x), f(pad.size.y)),
                drill: pad_drill(pad).map(|d| vec2(f(d.x), f(d.y))),
                angle: s(pose.rotation + f(pad.rotation)),
                layer_codes: pad.layers.iter().map(|name| layer_code(name)).collect(),
            })
            .collect(),
        graphics: graphics
            .iter()
            .map(|graphic| PlacedGraphic {
                points: graphic_spots(graphic, cardinal).into_iter().map(|p| pose.at(p)).collect(),
                angle: match graphic {
                    IpcGraphicDefinition::Text { rotation, .. } => {
                        s(readable_text_angle(f(*rotation) + pose.rotation))
                    }
                    _ => s(0.0),
                },
                radius: match graphic {
                    IpcGraphicDefinition::Circle { center, end, .. } => {
                        s((f(end.x) - f(center.x)).hypot(f(end.y) - f(center.y)))
                    }
                    _ => s(0.0),
                },
            })
            .collect(),
    }
}

const NO_FIELDS: IpcFieldPlacement = IpcFieldPlacement { reference_at: None, value_at: None };

fn client() -> KiCadIpcClient {
    let environment = Environment { api_socket: None, api_token: None, process_id: 1 };
    KiCadIpcClient::new("tcp://never-dialed".into(), &environment)
}

fn put_together(
    pads: Vec<IpcPadDefinition>,
    graphics: Vec<IpcGraphicDefinition>,
    fields: &IpcFieldPlacement,
    pose: &Pose,
    layer: &str,
) -> FootprintItem {
    let placement = place(&pads, &graphics, fields, pose);
    client()
        .build_footprint_item("Lib:Fp", "R1", "R", &pads, &graphics, &placement, layer, &codes())
        .unwrap()
}

fn build(graphics: Vec<IpcGraphicDefinition>, x: f64, y: f64, rotation: f64) -> FootprintItem {
    put_together(vec![], graphics, &NO_FIELDS, &Pose { x, y, rotation }, "F.Cu")
}

fn shapes(fp: &FootprintItem) -> Vec<(&str, &ShapeGeometry)> {
    fp.children
        .iter()
        .filter_map(|child| match child {
            FootprintChild::Shape { layer, geometry, .. } => {
                assert!(child.message_name().ends_with("BoardGraphicShape"));
                Some((layer.as_str(), geometry))
            }
            _ => None,
        })
        .collect()
}

fn texts(fp: &FootprintItem) -> Vec<(&str, Vector2, f64)> {
    fp.children
        .iter()
        .filter_map(|child| match child {
            FootprintChild::Text { layer, position, angle, .. } => {
                assert!(child.message_name().ends_with("BoardText"));
                Some((layer.as_str(), *position, f(*angle)))
            }
            _ => None,
        })
        .collect()
}

fn pads(fp: &FootprintItem) -> Vec<&PadItem> {
    fp.children
        .iter()
        .filter_map(|child| match child {
            FootprintChild::Pad(pad) => {
                assert!(child.message_name().ends_with("types.Pad"));
                Some(pad)
            }
            _ => None,
        })
        .collect()
}

#[test]
fn rotation_90_pretransforms_graphics_to_absolute_board_space() {
    let graphics = vec![
        IpcGraphicDefinition::Rect {
            start: pt(-1.0, -2.0),
            end: pt(1.0, 2.0),
            layer: "F.CrtYd".to_string(),
            width: s(0.05),
            filled: false,
        },
        IpcGraphicDefinition::Line {
            start: pt(-1.0, 0.0),
            end: pt(1.0, 0.0),
            layer: "F.SilkS".to_string(),
            width: s(0.12),
        },
        IpcGraphicDefinition::Text {
            text: "hello".to_string(),
            position: pt(0.0, 2.0),
            rotation: s(0.0),
            layer: "F.Fab".to_string(),
            size: s(0.5),
        },
    ];
    let fp = build(graphics, 100.0, 50.0, 90.0);

    let shapes = shapes(&fp);
    assert_eq!(shapes.len(), 2);

    let (layer, geometry) = shapes[0];
    assert_eq!(layer, "F.CrtYd");
    match geometry {
        ShapeGeometry::Rectangle { top_left, bottom_right, .. } => {
            assert_eq!(top_left.x_nm, 98_000_000);
            assert_eq!(top_left.y_nm, 49_000_000);
            assert_eq!(bottom_right.x_nm, 102_000_000);
            assert_eq!(bottom_right.y_nm, 51_000_000);
        }
        other => panic!("expected Rectangle geometry, got {other:?}"),
    }

    let (layer, geometry) = shapes[1];
    assert_eq!(layer, "F.SilkS");
    match geometry {
        ShapeGeometry::Segment { start, end } => {
            assert_eq!(start.x_nm, 100_000_000);
            assert_eq!(start.y_nm, 51_000_000);
            assert_eq!(end.x_nm, 100_000_000);
            assert_eq!(end.y_nm, 49_000_000);
        }
        other => panic!("expected Segment geometry, got {other:?}"),
    }

    let texts = texts(&fp);
    assert_eq!(texts.len(), 1);
    let (layer, position, angle) = texts[0];
    assert_eq!(layer, "F.Fab");
    assert_eq!(position.x_nm, 102_000_000);
    assert_eq!(position.y_nm, 50_000_000);
    assert_eq!(angle, 90.0);
}

#[test]
fn text_angles_are_kept_readable() {
    let graphics = vec![IpcGraphicDefinition::Text {
        text: "hello".to_string(),
        position: pt(0.0, 0.0),
        rotation: s(0.0),
        layer: "F.Fab".to_string(),
        size: s(0.5),
    }];
    let fp = build(graphics, 0.0, 0.0, 180.0);
    let (_, _, angle) = texts(&fp)[0];
    assert_eq!(angle, 0.0);
}

#[test]
fn non_cardinal_rotation_emits_rect_as_polygon() {
    let graphics = vec![IpcGraphicDefinition::Rect {
        start: pt(-1.0, -1.0),
        end: pt(1.0, 1.0),
        layer: "F.CrtYd".to_string(),
        width: s(0.05),
        filled: false,
    }];
    let fp = build(graphics, 0.0, 0.0, 45.0);
    let shapes = shapes(&fp);
    assert_eq!(shapes.len(), 1);
    match shapes[0].1 {
        ShapeGeometry::Polygon { outline, closed, .. } => {
            assert!(closed);
            assert_eq!(outline.len(), 4);
            let first = outline[0];
            let sqrt2_nm = (std::f64::consts::SQRT_2 * 1_000_000.0) as i64;
            assert!((first.x_nm + sqrt2_nm).abs() < 10, "x={}", first.x_nm);
            assert!(first.y_nm.abs() < 10, "y={}", first.y_nm);
        }
        other => panic!("expected Polygon geometry for a 45-degree rect, got {other:?}"),
    }
}

#[test]
fn circle_center_rotates_and_radius_is_preserved() {
    let graphics = vec![IpcGraphicDefinition::Circle {
        center: pt(1.0, 0.0),
        end: pt(1.5, 0.0),
        layer: "F.Fab".to_string(),
        width: s(0.1),
        filled: true,
    }];
    let fp = build(graphics, 10.0, 10.0, 90.0);
    match shapes(&fp)[0].1 {
        ShapeGeometry::Circle { center, radius, filled } => {
            assert_eq!(center.x_nm, 10_000_000);
            assert_eq!(center.y_nm, 9_000_000);
            assert_eq!(vec2(f(*radius), 0.0).x_nm, 500_000);
            assert!(filled);
        }
        other => panic!("expected Circle geometry, got {other:?}"),
    }
}

fn smd_pad(layers: Vec<&str>) -> IpcPadDefinition {
    IpcPadDefinition {
        number: "1".to_string(),
        pad_type: "smd".to_string(),
        shape: "rect".to_string(),
        at: pt(0.0, 0.0),
        size: pt(1.0, 1.0),
        layers: layers.into_iter().map(String::from).collect(),
        drill_x: None,
        drill_y: None,
        drill_oval: false,
        roundrect_ratio: s(0.0),
        rotation: s(0.0),
    }
}

#[test]
fn pad_stacks_are_unpackable_on_both_sides() {
    for layer in ["F.Cu", "B.Cu"] {
        let fp = put_together(
            vec![smd_pad(vec![layer])],
            vec![],
            &NO_FIELDS,
            &Pose { x: 10.0, y: 10.0, rotation: 0.0 },
            "F.Cu",
        );
        let pad = pads(&fp)[0];
        assert_eq!(pad.copper.layer, codes().f_cu, "build_footprint_item pad on {layer}");
        assert_eq!(pad.layers, vec![layer_code(layer)]);
        assert_eq!(pad.kind, PadKind::Smd);
    }
}

#[test]
fn a_pad_lists_each_of_its_layers_once_in_order() {
    let everything = smd_pad(vec!["*.Mask", "B.Cu", "*.Cu", "F.Mask", "Nowhere"]);
    let fp = put_together(
        vec![everything],
        vec![],
        &NO_FIELDS,
        &Pose { x: 0.0, y: 0.0, rotation: 0.0 },
        "F.Cu",
    );
    let mut expected: Vec<i32> = (3..=34).collect();
    expected.extend([39, 40]);
    assert_eq!(pads(&fp)[0].layers, expected);
}

#[test]
fn a_drilled_pad_has_a_hole() {
    let mut pad = smd_pad(vec!["*.Paste"]);
    pad.pad_type = "thru_hole".into();
    pad.shape = "oval".into();
    pad.drill_x = Some(s(0.8));
    pad.drill_oval = true;
    pad.roundrect_ratio = s(0.25);
    pad.rotation = s(15.0);
    let fp = put_together(
        vec![pad],
        vec![],
        &NO_FIELDS,
        &Pose { x: 1.0, y: 2.0, rotation: 30.0 },
        "B.Cu",
    );
    let pad = pads(&fp)[0];
    assert_eq!(pad.kind, PadKind::Pth);
    assert_eq!(pad.layers, vec![37, 38]);
    assert_eq!(pad.copper.shape, PadStackShape::Oval);
    assert_eq!(pad.copper.custom_anchor_shape, PadStackShape::Oval);
    assert_eq!(pad.copper.size, vec2(1.0, 1.0));
    assert_eq!(pad.copper.corner_rounding_ratio, s(0.25));
    assert_eq!(pad.copper.offset, vec2(0.0, 0.0));
    assert_eq!(
        pad.hole,
        Some(PadHole { start_layer: 3, end_layer: 34, diameter: vec2(0.8, 0.8), oblong: true })
    );
    assert_eq!(pad.angle, s(45.0));
    assert_eq!(pad.position, vec2(1.0, 2.0));
}

#[test]
fn fields_go_where_the_library_puts_them() {
    let fp = build(vec![], 10.0, 10.0, 0.0);
    assert_eq!(fp.library_nickname, "Lib");
    assert_eq!(fp.entry_name, "Fp");
    assert_eq!(fp.reference.name, "Reference");
    assert_eq!(fp.reference.text, "R1");
    assert_eq!(fp.reference.position, vec2(10.0, 9.0));
    assert_eq!(fp.reference.layer, "F.SilkS");
    assert_eq!(fp.reference.size, vec2(1.0, 1.0));
    assert!(fp.reference.visible);
    assert_eq!(fp.value.name, "Value");
    assert_eq!(fp.value.text, "R");
    assert_eq!(fp.value.position, vec2(10.0, 11.0));
    assert!(!fp.value.visible);
    let fields = IpcFieldPlacement {
        reference_at: Some(FieldSpot { at: pt(2.0, 0.0), rotation: s(90.0) }),
        value_at: None,
    };
    let pose = Pose { x: 10.0, y: 10.0, rotation: 90.0 };
    let fp = put_together(vec![], vec![], &fields, &pose, "B.Cu");
    assert_eq!(fp.reference.position, vec2(10.0, 8.0));
    assert_eq!(fp.reference.angle, s(0.0));
    assert_eq!(fp.reference.layer, "B.SilkS");
    assert_eq!(fp.value.layer, "B.SilkS");
    assert_eq!(fp.layer, "B.Cu");
    assert_eq!(fp.orientation, s(90.0));
}

#[test]
fn other_graphics_keep_their_points() {
    let graphics = vec![
        IpcGraphicDefinition::Arc {
            start: pt(0.0, 0.0),
            mid: pt(1.0, 1.0),
            end: pt(2.0, 0.0),
            layer: "F.Fab".into(),
            width: s(0.1),
        },
        IpcGraphicDefinition::Poly {
            points: vec![pt(0.0, 0.0), pt(1.0, 0.0), pt(0.0, 1.0)],
            layer: "F.Fab".into(),
            width: s(0.1),
            filled: true,
        },
    ];
    let fp = build(graphics, 5.0, 5.0, 0.0);
    match shapes(&fp)[0].1 {
        ShapeGeometry::Arc { start, mid, end } => {
            assert_eq!((*start, *mid, *end), (vec2(5.0, 5.0), vec2(6.0, 6.0), vec2(7.0, 5.0)));
        }
        other => panic!("{other:?}"),
    }
    match shapes(&fp)[1].1 {
        ShapeGeometry::Polygon { outline, closed, filled } => {
            assert_eq!(outline, &vec![vec2(5.0, 5.0), vec2(6.0, 5.0), vec2(5.0, 6.0)]);
            assert!(*closed && *filled);
        }
        other => panic!("{other:?}"),
    }
}

#[test]
fn an_identifier_needs_a_library() {
    let placement =
        place(&[], &[], &NO_FIELDS, &Pose { x: 0.0, y: 0.0, rotation: 0.0 });
    let built =
        client().build_footprint_item("Fp", "R1", "R", &vec![], &vec![], &placement, "F.Cu", &codes());
    match built {
        Ok(_) => panic!("it was built"),
        Err(error) => assert_eq!(
            error.describe(),
            "footprint identifier must use Library:Footprint syntax"
        ),
    }
    let built = client().build_footprint_item(
        "a:b:c", "R1", "R", &vec![], &vec![], &placement, "F.Cu", &codes(),
    );
    let fp = built.unwrap();
    assert_eq!((fp.library_nickname.as_str(), fp.entry_name.as_str()), ("a", "b:c"));
}
