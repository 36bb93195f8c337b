//! Questions to KiCad, answered from lists of replies.

use konnect::board::IpcBoardEdgeGeometry;
use konnect::envelope::{ApiResponse, ApiStatus, Delivery, Environment, KiCadIpcClient, Sending};
use konnect::error::{IpcError, IpcFailure, TransportUnreachable};
use konnect::flows::describe_ipc_error;
use konnect::messages::{
    Arc, BoardGraphicShape, BoardLayer, BoardText, Box2, ChildContent, ChildItem,
    DocumentIdentifier, DocumentSpecifier, DrillProperties, EnabledLayer, Field, Footprint,
    FootprintInstance, Geometry, GraphicShape, Item, ItemContent, ItemKind, LibraryIdentifier, Net,
    OpenDocument, Pad, PadStack, PadStackLayer, PadStackShape, PathComponent, PathFacts, PolyLine, PolyLineNode,
    PolySet, PolygonWithHoles, ProjectSpecifier, Response, RuleAreaSettings, Text, Track, Vector2,
    Via, Zone, ZoneSettings,
};
use konnect::scalar::Scalar;
use konnect::session::{board_document_path, paths_refer_to_same_board};
use konnect::step::{Command, Reply, Step, Task};
use std::path::{Component, Path, PathBuf};

// Replies.

fn s(x: f64) -> Scalar {
    Scalar { bits: x.to_bits() }
}

fn v(x_nm: i64, y_nm: i64) -> Vector2 {
    Vector2 { x_nm, y_nm }
}

fn environment() -> Environment {
    Environment { api_socket: None, api_token: None, process_id: 7 }
}

fn client() -> KiCadIpcClient {
    KiCadIpcClient::new("tcp://never-dialed".into(), &environment())
}

fn components(path: &str) -> Vec<PathComponent> {
    Path::new(path)
        .components()
        .map(|component| match component {
            Component::RootDir => PathComponent::RootDir,
            Component::CurDir => PathComponent::CurDir,
            Component::ParentDir => PathComponent::ParentDir,
            Component::Normal(name) => PathComponent::Normal(name.as_encoded_bytes().to_vec()),
            other => panic!("{other:?}"),
        })
        .collect()
}

fn facts(path: &str) -> PathFacts {
    PathFacts { components: components(path), canonical: None, display: path.into() }
}

fn document(file: &str, project: Option<&str>) -> DocumentSpecifier {
    DocumentSpecifier {
        identifier: Some(DocumentIdentifier::BoardFilename(file.into())),
        project: project.map(|path| ProjectSpecifier { name: "p".into(), path: path.into() }),
        wire: vec![1, 2, 3],
    }
}

fn opened(file: &str) -> OpenDocument {
    OpenDocument { document: document(file, None), place: facts(file) }
}

fn board_open() -> Reply {
    Reply::Payload(Response::OpenDocuments(vec![opened("/work/a.kicad_pcb")]))
}

fn failed(message: &str) -> Reply {
    Reply::Failed(IpcError::say(message))
}

fn item(content: ItemContent) -> Item {
    Item { type_url: String::new(), value: vec![], content }
}

fn items(contents: Vec<ItemContent>) -> Reply {
    Reply::Payload(Response::Items(contents.into_iter().map(item).collect()))
}

fn net(name: &str, code: i32) -> Option<Net> {
    Some(Net { name: name.into(), code: Some(code) })
}

fn field(text: &str) -> Option<Field> {
    Some(Field { text: Some(BoardText { text: Some(Text { text: text.into() }) }) })
}

fn track(id: &str, net_name: &str, layer: BoardLayer) -> Track {
    Track {
        id: Some(id.into()),
        start: Some(v(1, 2)),
        end: Some(v(3, 4)),
        width_nm: Some(200_000),
        layer,
        net: net(net_name, 1),
    }
}

fn stack(shape: PadStackShape) -> Option<PadStack> {
    Some(PadStack {
        layers: vec![BoardLayer::FCu, BoardLayer::BCu],
        drill: Some(DrillProperties { diameter: Some(v(300, 300)) }),
        copper_layers: vec![PadStackLayer {
            shape,
            size: Some(v(600, 700)),
            corner_rounding_ratio: s(0.25),
        }],
        angle: Some(s(90.0)),
    })
}

fn via(id: &str, net_name: &str) -> Via {
    Via {
        id: Some(id.into()),
        position: Some(v(5, 6)),
        pad_stack: stack(PadStackShape::Circle),
        net: net(net_name, 2),
    }
}

fn pad(id: &str, number: &str, shape: PadStackShape) -> Pad {
    Pad {
        id: Some(id.into()),
        number: number.into(),
        position: Some(v(7, 8)),
        pad_stack: stack(shape),
        net: net("GND", 3),
    }
}

fn child(kind: &str, content: ChildContent) -> ChildItem {
    ChildItem { type_url: format!("type.googleapis.com/kiapi.board.types.{kind}"), content }
}

fn footprint(id: &str, reference: &str, children: Vec<ChildItem>) -> FootprintInstance {
    FootprintInstance {
        id: Some(id.into()),
        position: Some(v(10, 20)),
        orientation: Some(s(45.0)),
        layer: BoardLayer::BCu,
        reference_field: field(reference),
        value_field: field("10k"),
        definition: Some(Footprint {
            id: Some(LibraryIdentifier {
                library_nickname: "Device".into(),
                entry_name: "R_0603".into(),
            }),
            value_field: None,
            items: children,
        }),
    }
}

fn done<T>(step: Step<T>) -> Result<T, IpcError> {
    match step {
        Step::Done(result, _) => result,
        Step::Next(task) => panic!("not done: {task:?}"),
    }
}

fn used<T>(step: &Step<T>) -> usize {
    match step {
        Step::Done(_, used) => *used,
        Step::Next(_) => panic!("not done"),
    }
}

fn command<'a, T>(step: Step<'a, T>) -> Command<'a> {
    match step {
        Step::Next(Task::Send(command)) => command,
        _ => panic!("no command"),
    }
}

fn said<T>(step: Step<T>) -> String {
    match done(step) {
        Ok(_) => panic!("it succeeded"),
        Err(error) => error.describe_fully(),
    }
}

// Paths.

#[test]
fn relative_board_filename_is_resolved_against_project_path() {
    let document = DocumentSpecifier {
        identifier: Some(DocumentIdentifier::BoardFilename("controller.kicad_pcb".to_string())),
        project: Some(ProjectSpecifier {
            name: "controller".to_string(),
            path: "/work/controller".to_string(),
        }),
        wire: vec![],
    };
    let path = board_document_path(&document).unwrap();
    assert_eq!(
        PathBuf::from(path.base.unwrap()).join(path.file),
        PathBuf::from("/work/controller/controller.kicad_pcb")
    );
}

#[test]
fn an_absolute_board_filename_stands_for_itself() {
    let document = document("/x/b.kicad_pcb", Some("/work"));
    let path = board_document_path(&document).unwrap();
    assert_eq!(PathBuf::from(path.base.unwrap()).join(path.file), PathBuf::from("/x/b.kicad_pcb"));
    let bare = document_without_project();
    assert!(board_document_path(&bare).unwrap().base.is_none());
    let other = DocumentSpecifier { identifier: None, project: None, wire: vec![] };
    assert!(board_document_path(&other).is_none());
}

fn document_without_project() -> DocumentSpecifier {
    document("b.kicad_pcb", Some(""))
}

#[test]
fn bare_kicad_filename_is_not_enough_to_authorize_an_absolute_request() {
    assert!(!paths_refer_to_same_board(
        &facts("/work/controller/controller.kicad_pcb"),
        &facts("controller.kicad_pcb")
    ));
    assert!(paths_refer_to_same_board(
        &facts("controller.kicad_pcb"),
        &facts("controller.kicad_pcb")
    ));
    assert!(!paths_refer_to_same_board(
        &facts("/work/controller/other.kicad_pcb"),
        &facts("controller.kicad_pcb")
    ));
}

#[test]
fn canonical_paths_decide_where_both_are_known() {
    let mut link = facts("/work/link.kicad_pcb");
    link.canonical = Some(components("/real.kicad_pcb"));
    let mut real = facts("real.kicad_pcb");
    real.canonical = Some(components("/real.kicad_pcb"));
    assert!(paths_refer_to_same_board(&link, &real));
    real.canonical = Some(components("/other.kicad_pcb"));
    assert!(!paths_refer_to_same_board(&link, &real));
}

#[test]
fn naming_a_board_is_mutual() {
    let paths = ["controller.kicad_pcb", "/work/controller.kicad_pcb", "..", "/", "a/b.kicad_pcb"];
    for a in paths {
        assert!(paths_refer_to_same_board(&facts(a), &facts(a)));
        for b in paths {
            assert_eq!(
                paths_refer_to_same_board(&facts(a), &facts(b)),
                paths_refer_to_same_board(&facts(b), &facts(a))
            );
        }
    }
    assert!(paths_refer_to_same_board(&facts("./a/b.kicad_pcb"), &facts("./a//b.kicad_pcb")));
    assert!(!paths_refer_to_same_board(&facts("x/b.kicad_pcb"), &facts("a/b.kicad_pcb")));
}

// Failures.

#[test]
fn failures_are_told_apart_by_their_marker() {
    let unreachable = IpcError::unreachable("no answer".into()).context("while listing");
    match IpcFailure::from_error(unreachable) {
        IpcFailure::Unreachable(message) => {
            assert_eq!(
                message,
                format!("while listing: no answer: {}", TransportUnreachable.describe())
            );
        }
        other => panic!("{other:?}"),
    }
    let rejected = IpcFailure::from_error(IpcError::say("refused"));
    assert!(matches!(rejected, IpcFailure::Rejected(_)));
    assert_eq!(rejected.message(), "refused");
}

#[test]
fn a_text_does_not_make_a_failure_unreachable() {
    let error = IpcError::new(TransportUnreachable.describe());
    assert!(matches!(IpcFailure::from_error(error), IpcFailure::Rejected(_)));
}

#[test]
fn tools_show_the_outermost_cause() {
    let error = IpcError::say("inner").context("outer");
    assert_eq!(
        describe_ipc_error(&error),
        "KiCAD must be running with the board loaded (IPC error: outer)"
    );
}

// The client.

#[test]
fn a_client_takes_what_is_missing_from_the_environment() {
    let set = Environment {
        api_socket: Some("/tmp/kicad.sock".into()),
        api_token: Some("SECRET".into()),
        process_id: 42,
    };
    let client = KiCadIpcClient::new(String::new(), &set);
    assert_eq!(client.socket_path, "/tmp/kicad.sock");
    assert_eq!(client.kicad_token, "SECRET");
    assert_eq!(client.client_name, "konnect-42");
    assert_eq!(client.dial_url(), "ipc:///tmp/kicad.sock");
    let own = KiCadIpcClient::new_with_token("tcp://x".into(), "t".into(), &set);
    assert_eq!(own.socket_path, "tcp://x");
    assert_eq!(own.kicad_token, "t");
    assert_eq!(own.dial_url(), "tcp://x");
}

fn reply_to(client: &KiCadIpcClient, delivery: Delivery) -> Reply {
    match client.send_command(&Command::Ping, Some(delivery)) {
        Sending::Finished(reply) => reply,
        other => panic!("{other:?}"),
    }
}

fn failure_of(delivery: Delivery) -> IpcFailure {
    match reply_to(&client(), delivery) {
        Reply::Failed(error) => IpcFailure::from_error(error),
        other => panic!("{other:?}"),
    }
}

#[test]
fn a_command_without_a_socket_path_is_never_delivered() {
    let client = KiCadIpcClient::new(String::new(), &environment());
    match client.send_command(&Command::Ping, None) {
        Sending::Finished(Reply::Failed(error)) => {
            assert!(error.describe().starts_with("KiCAD IPC socket path not configured."));
            assert!(error.carries_marker());
        }
        other => panic!("{other:?}"),
    }
}

#[test]
fn a_command_goes_out_in_an_envelope() {
    let client = KiCadIpcClient::new_with_token("/s".into(), "t".into(), &environment());
    match client.send_command(&Command::GetOpenDocuments, None) {
        Sending::Deliver(envelope) => {
            assert_eq!(envelope.dial_url, "ipc:///s");
            assert_eq!(envelope.kicad_token, "t");
            assert_eq!(envelope.client_name, "konnect-7");
            assert_eq!(
                envelope.type_url,
                "type.googleapis.com/kiapi.common.commands.GetOpenDocuments"
            );
        }
        other => panic!("{other:?}"),
    }
}

#[test]
fn only_undelivered_commands_are_unreachable() {
    let why = || String::from("why");
    for (delivery, message) in [
        (Delivery::DialFailed(why()), "Cannot connect to KiCAD IPC at tcp://never-dialed: why"),
        (Delivery::SendFailed(why()), "NNG send failed: why"),
    ] {
        match failure_of(delivery) {
            IpcFailure::Unreachable(said) => assert!(said.starts_with(message)),
            other => panic!("{other:?}"),
        }
    }
    for (delivery, message) in [
        (Delivery::SocketFailed(why()), "Failed to create NNG socket: why"),
        (Delivery::SendTimeoutRefused(why()), "Failed to set NNG send timeout: why"),
        (Delivery::ReceiveTimeoutRefused(why()), "Failed to set NNG receive timeout: why"),
        (Delivery::ReceiveFailed(why()), "NNG recv failed: why"),
        (Delivery::Undecodable(why()), "Failed to decode ApiResponse: why"),
        (
            Delivery::Answered(ApiResponse { status: None, message: None }),
            "KiCad IPC response is missing its status",
        ),
    ] {
        match failure_of(delivery) {
            IpcFailure::Rejected(said) => assert_eq!(said, message),
            other => panic!("{other:?}"),
        }
    }
}

fn status(ok: bool, message: &str) -> Option<ApiStatus> {
    Some(ApiStatus {
        ok,
        code_name: "AS_BAD_REQUEST".into(),
        code_label: "AsBadRequest".into(),
        error_message: message.into(),
    })
}

#[test]
fn an_answer_counts_by_its_status() {
    let answer = |ok, message| {
        Delivery::Answered(ApiResponse {
            status: status(ok, message),
            message: Some(Response::Unread),
        })
    };
    assert!(matches!(reply_to(&client(), answer(true, "")), Reply::Payload(Response::Unread)));
    assert_eq!(
        failure_of(answer(false, "no")).message(),
        "KiCad IPC error: no (AS_BAD_REQUEST)"
    );
    assert_eq!(
        failure_of(answer(false, "")).message(),
        "KiCad IPC error: AsBadRequest (AS_BAD_REQUEST)"
    );
    let silent = Delivery::Answered(ApiResponse { status: status(true, ""), message: None });
    assert!(matches!(reply_to(&client(), silent), Reply::Empty));
}

// Documents.

#[test]
fn ping_never_fails() {
    assert!(matches!(command(client().ping(&vec![], 0)), Command::Ping));
    assert!(done(client().ping(&vec![Reply::Empty], 0)).unwrap());
    assert!(!done(client().ping(&vec![failed("no")], 0)).unwrap());
}

#[test]
fn the_board_that_is_asked_for_must_be_open() {
    let two = vec![Reply::Payload(Response::OpenDocuments(vec![
        opened("/work/a.kicad_pcb"),
        opened("/work/b.kicad_pcb"),
    ]))];
    let found = done(client().find_open_board(&facts("/work/b.kicad_pcb"), &two, 0)).unwrap();
    match &found.identifier {
        Some(DocumentIdentifier::BoardFilename(file)) => assert_eq!(file, "/work/b.kicad_pcb"),
        other => panic!("{other:?}"),
    }
    assert!(done(client().ensure_board_is_active(&facts("/work/a.kicad_pcb"), &two, 0)).is_ok());
    assert_eq!(
        said(client().ensure_board_is_active(&facts("/work/c.kicad_pcb"), &two, 0)),
        "requested board '/work/c.kicad_pcb' is not open in KiCAD (open boards: \
         /work/a.kicad_pcb, /work/b.kicad_pcb)"
    );
    let none = vec![Reply::Payload(Response::OpenDocuments(vec![]))];
    assert_eq!(
        said(client().find_open_board(&facts("/work/a.kicad_pcb"), &none, 0)),
        "No PCB document is open in KiCAD. Open a board file first."
    );
}

#[test]
fn a_payload_of_another_kind_is_refused() {
    let wrong = vec![Reply::Payload(Response::Nets(vec![]))];
    assert!(said(client().get_open_documents(&wrong, 0))
        .starts_with("Failed to decode protobuf Any body: "));
    let broken = vec![Reply::Payload(Response::Undecodable("bad varint".into()))];
    assert_eq!(
        said(client().get_open_documents(&broken, 0)),
        "Failed to decode protobuf Any body: bad varint"
    );
}

// Nets, layers, extents.

#[test]
fn nets_are_listed_and_looked_up() {
    let first = vec![board_open()];
    assert!(matches!(command(client().get_nets(&first, 0)), Command::GetNets { .. }));
    let replies = vec![
        board_open(),
        Reply::Payload(Response::Nets(vec![
            Net { name: "GND".into(), code: Some(1) },
            Net { name: "VCC".into(), code: None },
        ])),
    ];
    let nets = done(client().get_nets(&replies, 0)).unwrap();
    assert_eq!(nets.len(), 2);
    assert_eq!((nets[0].name.as_str(), nets[0].netcode), ("GND", 1));
    assert_eq!(nets[1].netcode, 0);
    let step = client().resolve_net_code("GND", &replies, 0);
    assert_eq!(used(&step), 2);
    assert_eq!(done(step).unwrap(), 1);
    assert!(said(client().resolve_net_code("X", &replies, 0)).contains("'X'"));
}

#[test]
fn layers_lose_the_names_of_the_wire() {
    let replies = vec![
        board_open(),
        Reply::Payload(Response::EnabledLayers(vec![
            EnabledLayer { id: 3, wire_name: "BL_F_Cu".into() },
            EnabledLayer { id: 47, wire_name: "BL_Edge_Cuts".into() },
        ])),
    ];
    let layers = done(client().get_layers(&replies, 0)).unwrap();
    assert_eq!((layers[0].name.as_str(), layers[0].id), ("F.Cu", 3));
    assert_eq!(layers[1].name, "Edge.Cuts");
}

#[test]
fn extents_come_from_the_first_box() {
    let replies = vec![
        board_open(),
        Reply::Payload(Response::BoundingBoxes(vec![Box2 {
            position: Some(v(1, 2)),
            size: Some(v(3, 4)),
        }])),
    ];
    let extents = done(client().get_board_extents(&replies, 0)).unwrap();
    assert_eq!((extents.min, extents.size), (v(1, 2), v(3, 4)));
    let none = vec![board_open(), Reply::Payload(Response::BoundingBoxes(vec![]))];
    assert!(done(client().get_board_extents(&none, 0)).is_err());
}

#[test]
fn plain_commands_are_acknowledged() {
    let open = vec![board_open()];
    assert!(matches!(command(client().refill_zones(&open, 0)), Command::RefillZones { .. }));
    assert!(matches!(command(client().save_board(&open, 0)), Command::SaveDocument { .. }));
    let empty = vec![];
    match command(client().run_action("pcbnew.Zoom", &empty, 0)) {
        Command::RunAction { action } => assert_eq!(action, "pcbnew.Zoom"),
        other => panic!("{other:?}"),
    }
    let answered = vec![board_open(), Reply::Empty];
    assert!(done(client().refill_zones(&answered, 0)).is_ok());
    let refused = vec![board_open(), failed("busy")];
    assert_eq!(said(client().save_board(&refused, 0)), "busy");
}

// Items.

#[test]
fn footprints_are_listed_and_looked_up() {
    let replies = vec![
        board_open(),
        items(vec![
            ItemContent::Undecodable("bad".into()),
            ItemContent::Footprint(footprint("k1", "R1", vec![])),
            ItemContent::Footprint(footprint("k2", "R2", vec![])),
        ]),
    ];
    let all = done(client().list_footprints(&replies, 0)).unwrap();
    assert_eq!(all.len(), 2);
    assert_eq!(all[0].reference, "R1");
    assert_eq!(all[0].value, "10k");
    assert_eq!(all[0].footprint, "Device:R_0603");
    assert_eq!(all[0].position, v(10, 20));
    assert_eq!(all[0].rotation, s(45.0));
    assert_eq!(all[0].layer, "B.Cu");
    let found = done(client().get_footprint("R2", &replies, 0)).unwrap();
    let found = found.unwrap();
    assert_eq!((found.footprint.reference.as_str(), found.kiid.as_str()), ("R2", "k2"));
    assert!(done(client().get_footprint("R9", &replies, 0)).unwrap().is_none());
    assert_eq!(done(client().find_footprint_kiid("R2", &replies, 0)).unwrap().value, "k2");
    assert_eq!(
        said(client().find_footprint_kiid("R9", &replies, 0)),
        "Footprint 'R9' not found on board"
    );
}

#[test]
fn tracks_pass_filters() {
    let replies = vec![
        board_open(),
        items(vec![
            ItemContent::Track(track("t1", "GND", BoardLayer::FCu)),
            ItemContent::Track(track("t2", "VCC", BoardLayer::BCu)),
            ItemContent::Undecodable("bad".into()),
        ]),
    ];
    let all = done(client().get_tracks(None, None, &replies, 0)).unwrap();
    assert_eq!(all.len(), 2);
    assert_eq!(all[0].kiid, "t1");
    assert_eq!(all[0].width_nm, 200_000);
    let ground = done(client().get_tracks(Some("GND"), None, &replies, 0)).unwrap();
    assert_eq!(ground.len(), 1);
    assert!(done(client().get_tracks(Some("GND"), Some("B.Cu"), &replies, 0)).unwrap().is_empty());
}

#[test]
fn filters_keep_the_order_of_the_list() {
    let replies = vec![
        board_open(),
        items(vec![
            ItemContent::Track(track("t1", "GND", BoardLayer::FCu)),
            ItemContent::Track(track("t2", "VCC", BoardLayer::FCu)),
            ItemContent::Track(track("t3", "GND", BoardLayer::BCu)),
            ItemContent::Track(track("t4", "GND", BoardLayer::FCu)),
        ]),
    ];
    let kiids = |net, layer| -> Vec<String> {
        let listed = done(client().get_tracks(net, layer, &replies, 0)).unwrap();
        listed.into_iter().map(|t| t.kiid).collect()
    };
    assert_eq!(kiids(None, None), vec!["t1", "t2", "t3", "t4"]);
    assert_eq!(kiids(Some("GND"), None), vec!["t1", "t3", "t4"]);
    assert_eq!(kiids(None, Some("F.Cu")), vec!["t1", "t2", "t4"]);
    assert_eq!(kiids(Some("GND"), Some("F.Cu")), vec!["t1", "t4"]);
}

#[test]
fn a_track_without_a_width_has_the_default() {
    let mut plain = track("t1", "GND", BoardLayer::FCu);
    plain.width_nm = None;
    plain.start = None;
    let replies = vec![board_open(), items(vec![ItemContent::Track(plain)])];
    let all = done(client().get_tracks(None, None, &replies, 0)).unwrap();
    assert_eq!(all[0].width_nm, 250_000);
    assert_eq!(all[0].start, v(0, 0));
}

#[test]
fn vias_are_listed() {
    let replies = vec![
        board_open(),
        items(vec![ItemContent::Via(via("v1", "GND")), ItemContent::Via(via("v2", "VCC"))]),
    ];
    let all = done(client().get_vias(Some("VCC"), &replies, 0)).unwrap();
    assert_eq!(all.len(), 1);
    assert_eq!(all[0].kiid, "v2");
    assert_eq!(all[0].size, Some(v(600, 700)));
    assert_eq!(all[0].drill, Some(v(300, 300)));
    assert_eq!(all[0].layers, vec!["F.Cu", "B.Cu"]);
    assert_eq!(all[0].net_id, 2);
}

#[test]
fn identifiers_are_resolved_and_unknown_ones_left_out() {
    let arc = Arc {
        id: Some("a1".into()),
        start: None,
        mid: None,
        end: None,
        width_nm: None,
        layer: BoardLayer::In1Cu,
        net: None,
    };
    let replies = vec![
        board_open(),
        items(vec![ItemContent::Track(track("t1", "GND", BoardLayer::FCu))]),
        board_open(),
        items(vec![ItemContent::Arc(arc)]),
        board_open(),
        items(vec![ItemContent::Via(via("v1", "VCC"))]),
        board_open(),
        items(vec![ItemContent::Footprint(footprint(
            "f1",
            "R1",
            vec![
                child("Pad", ChildContent::Pad(pad("p1", "1", PadStackShape::Circle))),
                child("Pad", ChildContent::Pad(pad("p2", "2", PadStackShape::Circle))),
                child("Other", ChildContent::Undecodable("never read".into())),
            ],
        ))]),
    ];
    let ids: Vec<String> =
        ["p2", "f1", "t1", "a1", "v1", "gone"].iter().map(|id| id.to_string()).collect();
    let found = done(client().resolve_board_item_ids(&ids, &replies, 0)).unwrap();
    let kinds: Vec<(&str, &str)> =
        found.iter().map(|i| (i.kiid.as_str(), i.item_type.as_str())).collect();
    assert_eq!(
        kinds,
        vec![("t1", "track"), ("a1", "track_arc"), ("v1", "via"), ("f1", "footprint"), ("p2", "pad")]
    );
    assert_eq!(found[0].layer.as_deref(), Some("F.Cu"));
    assert_eq!(found[1].layer.as_deref(), Some("In1.Cu"));
    assert_eq!(found[2].position, Some(v(5, 6)));
    assert_eq!(found[3].reference.as_deref(), Some("R1"));
    assert_eq!(found[4].pad.as_deref(), Some("2"));
    assert_eq!(found[4].reference.as_deref(), Some("R1"));
    assert_eq!(found[4].layer.as_deref(), Some("F.Cu"));
}

#[test]
fn an_unreadable_item_fails_the_resolution() {
    let replies = vec![board_open(), items(vec![ItemContent::Undecodable("bad".into())])];
    assert_eq!(said(client().resolve_board_item_ids(&vec![], &replies, 0)), "bad");
}

// Rule areas.

fn node(x_nm: i64, y_nm: i64) -> PolyLineNode {
    PolyLineNode::Point(Vector2 { x_nm, y_nm })
}

fn rule_area_zone(
    keepout_tracks: bool,
    keepout_vias: bool,
    keepout_copper: bool,
    keepout_pads: bool,
    keepout_footprints: bool,
) -> Zone {
    Zone {
        id: Some("11111111-1111-1111-1111-111111111111".into()),
        layers: vec![BoardLayer::FCu],
        outline: Some(PolySet {
            polygons: vec![PolygonWithHoles {
                outline: Some(PolyLine {
                    nodes: vec![node(0, 0), node(1_000_000, 0), node(1_000_000, 1_000_000)],
                }),
            }],
        }),
        name: "TestKeepout".into(),
        settings: Some(ZoneSettings::RuleArea(RuleAreaSettings {
            keepout_copper,
            keepout_vias,
            keepout_tracks,
            keepout_pads,
            keepout_footprints,
        })),
    }
}

fn copper_zone() -> Zone {
    let mut z = rule_area_zone(false, false, false, false, false);
    z.settings = Some(ZoneSettings::Copper { net: None });
    z
}

#[test]
fn ordinary_copper_zone_is_excluded() {
    let zone = copper_zone();
    assert!(
        KiCadIpcClient::zone_to_rule_area(&zone, None, "board", None, None).is_none(),
        "a CopperZoneSettings zone must never be reported as a rule area"
    );
}

#[test]
fn rule_area_is_included_with_expected_fields() {
    let zone = rule_area_zone(true, true, false, false, true);
    let ra = KiCadIpcClient::zone_to_rule_area(&zone, None, "board", None, None)
        .expect("RuleAreaSettings zone must be included");
    assert_eq!(ra.kiid, "11111111-1111-1111-1111-111111111111");
    assert_eq!(ra.name, "TestKeepout");
    assert_eq!(ra.layers, vec!["F.Cu".to_string()]);
    assert!(ra.keepout_tracks);
    assert!(ra.keepout_vias);
    assert!(!ra.keepout_copper);
    assert!(!ra.keepout_pads);
    assert!(ra.keepout_footprints);
    assert_eq!(ra.owner, "board");
    assert!(ra.footprint_kiid.is_none());
}

#[test]
fn geometry_bounds_are_preserved() {
    let zone = rule_area_zone(true, false, false, false, false);
    let ra = KiCadIpcClient::zone_to_rule_area(&zone, None, "board", None, None).unwrap();
    assert_eq!(ra.bounds.len(), 1);
    assert_eq!(ra.bounds[0].len(), 3);
    assert!((ra.bounds[0][1].x_nm as f64 / 1_000_000.0 - 1.0).abs() < 1e-9);
}

#[test]
fn layer_filter_matching_layer_is_included() {
    let zone = rule_area_zone(true, false, false, false, false);
    assert!(KiCadIpcClient::zone_to_rule_area(&zone, Some("F.Cu"), "board", None, None).is_some());
}

#[test]
fn layer_filter_non_matching_layer_is_excluded() {
    let zone = rule_area_zone(true, false, false, false, false);
    assert!(KiCadIpcClient::zone_to_rule_area(&zone, Some("B.Cu"), "board", None, None).is_none());
}

#[test]
fn footprint_owner_fields_are_attached() {
    let zone = rule_area_zone(false, false, false, false, false);
    let ra = KiCadIpcClient::zone_to_rule_area(
        &zone,
        None,
        "footprint",
        Some("fp-kiid-1".to_string()),
        Some("U1".to_string()),
    )
    .unwrap();
    assert_eq!(ra.owner, "footprint");
    assert_eq!(ra.footprint_kiid.as_deref(), Some("fp-kiid-1"));
    assert_eq!(ra.footprint_reference.as_deref(), Some("U1"));
}

#[test]
fn zone_with_no_settings_is_excluded() {
    let mut zone = rule_area_zone(true, false, false, false, false);
    zone.settings = None;
    assert!(KiCadIpcClient::zone_to_rule_area(&zone, None, "board", None, None).is_none());
}

#[test]
fn rule_areas_of_the_board_and_of_footprints_are_found() {
    let replies = vec![
        board_open(),
        items(vec![
            ItemContent::Zone(copper_zone()),
            ItemContent::Zone(rule_area_zone(true, false, false, false, false)),
            ItemContent::Undecodable("bad".into()),
        ]),
        board_open(),
        items(vec![ItemContent::Footprint(footprint(
            "f1",
            "U1",
            vec![
                child("Zone", ChildContent::Zone(rule_area_zone(false, true, false, false, false))),
                child("Zone", ChildContent::Undecodable("bad".into())),
                child("Pad", ChildContent::Pad(pad("p", "1", PadStackShape::Circle))),
            ],
        ))]),
    ];
    let areas = done(client().get_rule_areas(Some("F.Cu"), &replies, 0)).unwrap();
    assert_eq!(areas.len(), 2);
    assert_eq!(areas[0].owner, "board");
    assert!(areas[0].footprint_reference.is_none());
    assert_eq!(areas[1].owner, "footprint");
    assert_eq!(areas[1].footprint_kiid.as_deref(), Some("f1"));
    assert_eq!(areas[1].footprint_reference.as_deref(), Some("U1"));
    assert!(done(client().get_rule_areas(Some("B.Cu"), &replies, 0)).unwrap().is_empty());
}

// Routing geometry.

fn shape(layer: BoardLayer, geometry: Option<Geometry>) -> BoardGraphicShape {
    BoardGraphicShape { layer, shape: Some(GraphicShape { geometry }) }
}

fn segment(layer: BoardLayer) -> BoardGraphicShape {
    shape(layer, Some(Geometry::Segment { start: Some(v(0, 0)), end: Some(v(9, 0)) }))
}

fn routing_replies(arcs: Reply, footprints: Reply, shapes: Reply) -> Vec<Reply> {
    let mut zone = copper_zone();
    zone.layers = vec![BoardLayer::FCu, BoardLayer::In2Cu];
    zone.settings = Some(ZoneSettings::Copper { net: net("GND", 4) });
    vec![
        board_open(),
        items(vec![ItemContent::Footprint(footprint("f1", "R1", vec![]))]),
        board_open(),
        items(vec![ItemContent::Track(track("t1", "GND", BoardLayer::FCu))]),
        board_open(),
        arcs,
        board_open(),
        footprints,
        board_open(),
        items(vec![ItemContent::Via(via("v1", "VCC"))]),
        board_open(),
        items(vec![ItemContent::Zone(zone)]),
        board_open(),
        shapes,
        board_open(),
        Reply::Payload(Response::EnabledLayers(vec![EnabledLayer {
            id: 3,
            wire_name: "BL_F_Cu".into(),
        }])),
        board_open(),
        failed("No bounding box returned from KiCAD"),
    ]
}

fn full_arc() -> Arc {
    Arc {
        id: None,
        start: Some(v(0, 0)),
        mid: Some(v(1, 1)),
        end: Some(v(2, 0)),
        width_nm: None,
        layer: BoardLayer::FCu,
        net: net("GND", 1),
    }
}

#[test]
fn routing_geometry_is_gathered_class_by_class() {
    let replies = routing_replies(
        items(vec![ItemContent::Arc(full_arc())]),
        items(vec![ItemContent::Footprint(footprint(
            "f1",
            "R1",
            vec![
                child("Pad", ChildContent::Pad(pad("p1", "1", PadStackShape::Roundrect))),
                child("Pad", ChildContent::Pad(pad("p2", "2", PadStackShape::Custom))),
                child("Pad", ChildContent::Pad(pad("p3", "3", PadStackShape::Invalid))),
                child(
                    "BoardGraphicShape",
                    ChildContent::Shape(shape(
                        BoardLayer::FCrtYd,
                        Some(Geometry::Rectangle {
                            top_left: Some(v(0, 0)),
                            bottom_right: Some(v(2, 1)),
                        }),
                    )),
                ),
                child("BoardGraphicShape", ChildContent::Shape(segment(BoardLayer::FSilkS))),
            ],
        ))]),
        items(vec![
            ItemContent::Shape(segment(BoardLayer::EdgeCuts)),
            ItemContent::Shape(segment(BoardLayer::FSilkS)),
            ItemContent::Shape(shape(
                BoardLayer::EdgeCuts,
                Some(Geometry::Segment { start: None, end: Some(v(1, 1)) }),
            )),
            ItemContent::Shape(shape(
                BoardLayer::EdgeCuts,
                Some(Geometry::Arc {
                    start: Some(v(0, 0)),
                    mid: Some(v(1, 1)),
                    end: Some(v(2, 0)),
                }),
            )),
        ]),
    );
    let step = client().get_routing_geometry(&replies, 0);
    assert_eq!(used(&step), replies.len());
    let g = done(step).unwrap();
    assert_eq!(g.footprints.items.len(), 1);
    assert_eq!(g.tracks.items.len(), 1);
    assert_eq!(g.track_arcs.items[0].width_nm, 250_000);
    assert_eq!(g.pads.items.len(), 3);
    let first = &g.pads.items[0];
    assert_eq!(first.reference, "R1");
    assert_eq!(first.shape.as_deref(), Some("PssRoundrect"));
    assert!(first.geometry_supported);
    assert_eq!(first.rotation, s(90.0));
    assert_eq!(first.corner_rounding_ratio, Some(s(0.25)));
    assert_eq!(first.net_id, 3);
    assert!(!g.pads.items[1].geometry_supported);
    assert_eq!(
        g.pads.items[1].geometry_reason.as_deref(),
        Some("unsupported IPC pad shape: PssCustom")
    );
    assert_eq!(g.pads.items[2].shape.as_deref(), Some("PssUnknown"));
    assert!(!g.pads.items[2].geometry_supported);
    assert!(g.pads.items[2].geometry_reason.is_none());
    assert_eq!(g.courtyards.items.len(), 1);
    assert_eq!(g.courtyards.items[0].layer, "F.CrtYd");
    assert_eq!(g.courtyards.items[0].polygons, vec![vec![v(0, 0), v(2, 0), v(2, 1), v(0, 1)]]);
    assert_eq!(g.vias.items.len(), 1);
    let zone_layers: Vec<&str> = g.zones.items.iter().map(|z| z.layer.as_str()).collect();
    assert_eq!(zone_layers, vec!["F.Cu", "In2.Cu"]);
    assert_eq!(g.zones.items[1].net_name.as_deref(), Some("GND"));
    assert_eq!(g.zones.items[1].net_id, Some(4));
    assert_eq!(
        g.board_edges.items,
        vec![
            IpcBoardEdgeGeometry::Line { start: v(0, 0), end: v(9, 0) },
            IpcBoardEdgeGeometry::Arc { start: v(0, 0), mid: v(1, 1), end: v(2, 0) },
        ]
    );
    assert!(g.layers.available);
    assert!(!g.board_extents.available);
    assert_eq!(
        g.board_extents.reason.as_deref(),
        Some("No bounding box returned from KiCAD")
    );
}

#[test]
fn a_failed_class_says_why_and_the_others_stand() {
    let mut torn = full_arc();
    torn.mid = None;
    let replies = routing_replies(
        items(vec![ItemContent::Arc(torn)]),
        items(vec![ItemContent::Footprint(footprint(
            "f1",
            "R1",
            vec![child("Pad", ChildContent::Undecodable("bad pad".into()))],
        ))]),
        items(vec![ItemContent::Shape(shape(BoardLayer::EdgeCuts, Some(Geometry::Other)))]),
    );
    let g = done(client().get_routing_geometry(&replies, 0)).unwrap();
    assert!(g.footprints.available);
    assert!(g.tracks.available);
    assert_eq!(
        g.track_arcs.reason.as_deref(),
        Some("track arc item has incomplete IPC geometry")
    );
    assert!(!g.pads.available && !g.courtyards.available);
    assert_eq!(g.pads.reason.as_deref(), Some("bad pad"));
    assert_eq!(g.courtyards.reason.as_deref(), Some("bad pad"));
    assert!(g.pads.items.is_empty());
    assert_eq!(
        g.board_edges.reason.as_deref(),
        Some("unsupported Edge.Cuts primitive returned by KiCad IPC")
    );
    let replies = routing_replies(
        failed("arcs refused"),
        failed("footprints refused"),
        items(vec![ItemContent::Shape(shape(BoardLayer::EdgeCuts, None))]),
    );
    let g = done(client().get_routing_geometry(&replies, 0)).unwrap();
    assert_eq!(g.track_arcs.reason.as_deref(), Some("arcs refused"));
    assert_eq!(g.courtyards.reason.as_deref(), Some("footprints refused"));
    assert_eq!(g.board_edges.reason.as_deref(), Some("Edge.Cuts item has no IPC geometry"));
}

#[test]
fn routing_geometry_is_asked_for_in_order() {
    let replies = routing_replies(items(vec![]), items(vec![]), items(vec![]));
    let kinds = [
        ItemKind::Footprint,
        ItemKind::Trace,
        ItemKind::Arc,
        ItemKind::Footprint,
        ItemKind::Via,
        ItemKind::Zone,
        ItemKind::Shape,
    ];
    let mut sofar: Vec<Reply> = vec![];
    let mut rest = replies.into_iter();
    for kind in kinds {
        sofar.push(rest.next().unwrap());
        match command(client().get_routing_geometry(&sofar, 0)) {
            Command::GetItems { kind: asked, .. } => assert_eq!(asked, kind),
            other => panic!("{other:?}"),
        }
        sofar.push(rest.next().unwrap());
    }
    sofar.push(rest.next().unwrap());
    assert!(matches!(
        command(client().get_routing_geometry(&sofar, 0)),
        Command::GetBoardEnabledLayers { .. }
    ));
}

#[test]
fn a_snapshot_is_of_the_board_asked_for() {
    let replies = vec![board_open()];
    assert!(said(client().routing_snapshot(&facts("/work/z.kicad_pcb"), &replies, 0))
        .starts_with("requested board '/work/z.kicad_pcb' is not open in KiCAD"));
    let step = client().routing_snapshot(&facts("/work/a.kicad_pcb"), &replies, 0);
    assert!(matches!(command(step), Command::GetOpenDocuments));
}
