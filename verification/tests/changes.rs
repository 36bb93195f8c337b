//! Changes to the board, answered from lists of replies.

use konnect::commit::{CommitEnd, Operation};
use konnect::envelope::{Environment, KiCadIpcClient};
use konnect::error::IpcError;
use konnect::flows::TrackOrder;
use konnect::footprint_item::{FieldItem, FootprintItem};
use konnect::messages::{
    BoardLayer, BoardText, CreateResult, DeleteResult, DocumentIdentifier, DocumentSpecifier,
    Field, Footprint, FootprintInstance, Item, ItemContent, ItemKind, ItemStatus, ItemStatusCode,
    Net, OpenDocument, PackedItem, PathComponent, PathFacts, RequestStatus, Response, Text, Track, UpdateResult,
    Vector2, Via,
};
use konnect::scalar::{Point, Scalar};
use konnect::step::{
    Command, CommitAction, FootprintEdit, ItemIds, ItemUpdates, Kiid, NewItems, Reply, Step, Task,
};
use std::path::{Component, Path};

fn s(x: f64) -> Scalar {
    Scalar { bits: x.to_bits() }
}

fn v(x_nm: i64, y_nm: i64) -> Vector2 {
    Vector2 { x_nm, y_nm }
}

fn client() -> KiCadIpcClient {
    let environment = Environment { api_socket: None, api_token: None, process_id: 7 };
    KiCadIpcClient::new("tcp://never-dialed".into(), &environment)
}

fn components(path: &str) -> Vec<PathComponent> {
    Path::new(path)
        .components()
        .map(|component| match component {
            Component::RootDir => PathComponent::RootDir,
            Component::CurDir => PathComponent::CurDir,
            Component::ParentDir => PathComponent::ParentDir,
            Component::Normal(name) => PathComponent::Normal(name.as_encoded_bytes().to_vec()),
            other => panic!("{other:?}"),
        })
        .collect()
}

fn facts(path: &str) -> PathFacts {
    PathFacts { components: components(path), canonical: None, display: path.into() }
}

fn board_open() -> Reply {
    let file = "/work/a.kicad_pcb";
    Reply::Payload(Response::OpenDocuments(vec![OpenDocument {
        document: DocumentSpecifier {
            identifier: Some(DocumentIdentifier::BoardFilename(file.into())),
            project: None,
            wire: vec![],
        },
        place: facts(file),
    }]))
}

fn failed(message: &str) -> Reply {
    Reply::Failed(IpcError::say(message))
}

fn ok_status() -> RequestStatus {
    RequestStatus { ok: true, name: "IRS_OK".into() }
}

fn bad_status() -> RequestStatus {
    RequestStatus { ok: false, name: "IRS_DOCUMENT_NOT_FOUND".into() }
}

fn item_status(code: ItemStatusCode, name: &str, message: &str) -> Option<ItemStatus> {
    Some(ItemStatus { code, code_name: name.into(), error_message: message.into() })
}

fn created_one() -> Reply {
    Reply::Payload(Response::Created {
        status: ok_status(),
        results: vec![CreateResult {
            status: item_status(ItemStatusCode::IscOk, "ISC_OK", ""),
            has_item: true,
        }],
    })
}

fn deleted(id: &str) -> DeleteResult {
    DeleteResult { id: Some(id.into()), ok: true, status_name: "IDS_OK".into() }
}

fn deleted_one(id: &str) -> Reply {
    Reply::Payload(Response::Deleted { status: ok_status(), results: vec![deleted(id)] })
}

fn updated_one() -> Reply {
    Reply::Payload(Response::Updated {
        status: ok_status(),
        results: vec![UpdateResult {
            status: item_status(ItemStatusCode::IscOk, "ISC_OK", ""),
        }],
    })
}

fn packed(byte: u8) -> PackedItem {
    PackedItem { type_url: "t".into(), value: vec![byte] }
}

fn items(contents: Vec<ItemContent>) -> Reply {
    Reply::Payload(Response::Items(
        contents
            .into_iter()
            .map(|content| Item { type_url: "t".into(), value: vec![9], content })
            .collect(),
    ))
}

fn nets() -> Reply {
    Reply::Payload(Response::Nets(vec![Net { name: "GND".into(), code: Some(4) }]))
}

fn track(id: &str) -> ItemContent {
    ItemContent::Track(Track {
        id: Some(id.into()),
        start: None,
        end: None,
        width_nm: None,
        layer: BoardLayer::FCu,
        net: None,
    })
}

fn via(id: &str) -> ItemContent {
    ItemContent::Via(Via { id: Some(id.into()), position: None, pad_stack: None, net: None })
}

fn field(text: &str) -> Option<Field> {
    Some(Field { text: Some(BoardText { text: Some(Text { text: text.into() }) }) })
}

fn instance(id: &str, reference: &str) -> FootprintInstance {
    FootprintInstance {
        id: Some(id.into()),
        position: Some(v(10, 20)),
        orientation: Some(s(45.0)),
        layer: BoardLayer::FCu,
        reference_field: field(reference),
        value_field: field("10k"),
        definition: Some(Footprint { id: None, value_field: field("10k"), items: vec![] }),
    }
}

fn footprints(all: Vec<FootprintInstance>) -> Reply {
    items(all.into_iter().map(ItemContent::Footprint).collect())
}

fn done<T>(step: Step<T>) -> Result<T, IpcError> {
    match step {
        Step::Done(result, _) => result,
        Step::Next(task) => panic!("not done: {task:?}"),
    }
}

fn next<'a, T>(step: Step<'a, T>) -> Task<'a> {
    match step {
        Step::Next(task) => task,
        Step::Done(..) => panic!("it is done"),
    }
}

fn command<'a, T>(step: Step<'a, T>) -> Command<'a> {
    match next(step) {
        Task::Send(command) => command,
        other => panic!("no command: {other:?}"),
    }
}

fn said<T>(step: Step<T>) -> String {
    match done(step) {
        Ok(_) => panic!("it succeeded"),
        Err(error) => error.describe_fully(),
    }
}

// Creation.

fn creation(expected: usize, status: RequestStatus, results: Vec<CreateResult>) -> Result<(), String> {
    let all: Vec<PackedItem> = (0..expected).map(|i| packed(i as u8)).collect();
    let replies = vec![board_open(), Reply::Payload(Response::Created { status, results })];
    done(client().create_items(NewItems::Packed(&all), &replies, 0)).map_err(|e| e.describe())
}

fn created(code: ItemStatusCode, name: &str, message: &str, has_item: bool) -> CreateResult {
    CreateResult { status: item_status(code, name, message), has_item }
}

#[test]
fn creating_nothing_asks_nothing() {
    let none: Vec<PackedItem> = vec![];
    let replies = vec![];
    let step = client().create_items(NewItems::Packed(&none), &replies, 0);
    assert!(matches!(command(step), Command::GetOpenDocuments));
    let open = vec![board_open()];
    assert!(done(client().create_items(NewItems::Packed(&none), &open, 0)).is_ok());
}

#[test]
fn creation_needs_evidence_for_every_item() {
    let fine = || created(ItemStatusCode::IscOk, "ISC_OK", "", true);
    assert!(creation(2, ok_status(), vec![fine(), fine()]).is_ok());
    assert_eq!(
        creation(1, bad_status(), vec![]).unwrap_err(),
        "KiCad item creation request failed with IRS_DOCUMENT_NOT_FOUND"
    );
    assert_eq!(
        creation(3, ok_status(), vec![]).unwrap_err(),
        "KiCad created no items: the CreateItems response carried no items at all (3 requested)"
    );
    let unknown = || created(ItemStatusCode::IscUnknown, "ISC_UNKNOWN", "", true);
    assert!(creation(1, ok_status(), vec![unknown()]).is_ok());
    let refused = created(ItemStatusCode::Other, "ISC_INVALID_DATA", "no layer", true);
    let silent = CreateResult { status: None, has_item: false };
    assert_eq!(
        creation(3, ok_status(), vec![fine(), refused, silent]).unwrap_err(),
        "KiCad created 1 of 3 requested items: item 1: ISC_INVALID_DATA (no layer); \
         item 2: ISC_UNKNOWN (no error message)"
    );
    assert_eq!(
        creation(2, ok_status(), vec![fine()]).unwrap_err(),
        "KiCad created 1 of 2 requested items"
    );
}

#[test]
fn creation_needs_a_payload() {
    let one = vec![packed(1)];
    let replies = vec![board_open(), Reply::Empty];
    assert_eq!(
        said(client().create_items(NewItems::Packed(&one), &replies, 0)),
        "KiCad returned no CreateItems response payload"
    );
}

// Updates.

fn update(expected: usize, status: RequestStatus, results: Vec<UpdateResult>) -> Result<(), String> {
    let all: Vec<PackedItem> = (0..expected).map(|i| packed(i as u8)).collect();
    let replies = vec![board_open(), Reply::Payload(Response::Updated { status, results })];
    done(client().update_items(ItemUpdates::Many(&all), &replies, 0)).map_err(|e| e.describe())
}

#[test]
fn updating_nothing_asks_nothing() {
    let none: Vec<PackedItem> = vec![];
    assert!(done(client().update_items(ItemUpdates::Many(&none), &vec![], 0)).is_ok());
}

#[test]
fn an_update_must_hold_for_every_item() {
    let fine = || UpdateResult { status: item_status(ItemStatusCode::IscOk, "ISC_OK", "") };
    assert!(update(2, ok_status(), vec![fine(), fine()]).is_ok());
    assert_eq!(
        update(1, bad_status(), vec![]).unwrap_err(),
        "KiCad item update request failed with IRS_DOCUMENT_NOT_FOUND"
    );
    assert_eq!(
        update(2, ok_status(), vec![fine()]).unwrap_err(),
        "KiCad returned 1 update results for 2 requested items"
    );
    assert_eq!(
        update(2, ok_status(), vec![fine(), UpdateResult { status: None }]).unwrap_err(),
        "KiCad returned an update result without item status"
    );
    let refused =
        UpdateResult { status: item_status(ItemStatusCode::Other, "ISC_NONEXISTENT", "gone") };
    assert_eq!(
        update(1, ok_status(), vec![refused]).unwrap_err(),
        "KiCad item update failed: gone (ISC_NONEXISTENT)"
    );
}

// Deletion.

fn deletion(ids: &[&str], status: RequestStatus, results: Vec<DeleteResult>) -> Result<(), String> {
    let ids: Vec<String> = ids.iter().map(|id| id.to_string()).collect();
    let replies = vec![board_open(), Reply::Payload(Response::Deleted { status, results })];
    done(client().delete_items(ItemIds::Many(&ids), &replies, 0)).map_err(|e| e.describe())
}

#[test]
fn deleting_nothing_asks_nothing() {
    let none: Vec<String> = vec![];
    assert!(done(client().delete_items(ItemIds::Many(&none), &vec![], 0)).is_ok());
}

#[test]
fn repeated_identifiers_are_not_sent() {
    let twice: Vec<String> = vec!["a".into(), "a".into()];
    assert_eq!(
        said(client().delete_items(ItemIds::Many(&twice), &vec![], 0)),
        "delete request contains duplicate item identifiers"
    );
}

#[test]
fn a_deletion_must_be_reported_for_every_item() {
    assert!(deletion(&["a", "b"], ok_status(), vec![deleted("b"), deleted("a")]).is_ok());
    assert!(deletion(&["a", "b"], ok_status(), vec![]).is_ok());
    assert_eq!(
        deletion(&["a", "b"], ok_status(), vec![deleted("a"), deleted("a")]).unwrap_err(),
        "KiCad returned a deletion result for unexpected item 'a'"
    );
    assert_eq!(
        deletion(&["a"], bad_status(), vec![]).unwrap_err(),
        "KiCad item deletion request failed with IRS_DOCUMENT_NOT_FOUND"
    );
    assert_eq!(
        deletion(&["a", "b"], ok_status(), vec![deleted("a")]).unwrap_err(),
        "KiCad returned 1 deletion results for 2 requested items"
    );
    let nameless = DeleteResult { id: None, ok: true, status_name: "IDS_OK".into() };
    assert_eq!(
        deletion(&["a"], ok_status(), vec![nameless]).unwrap_err(),
        "KiCad returned a deletion result without an item identifier"
    );
    assert_eq!(
        deletion(&["a"], ok_status(), vec![deleted("z")]).unwrap_err(),
        "KiCad returned a deletion result for unexpected item 'z'"
    );
    let locked =
        DeleteResult { id: Some("a".into()), ok: false, status_name: "IDS_IMMUTABLE".into() };
    assert_eq!(
        deletion(&["a"], ok_status(), vec![locked]).unwrap_err(),
        "KiCad failed to delete item 'a': IDS_IMMUTABLE"
    );
}

#[test]
fn only_tracks_are_deleted_as_tracks() {
    let uuid: String = "t1".into();
    let found = vec![board_open(), items(vec![track("t1")]), board_open()];
    match command(client().delete_track(&uuid, &found, 0)) {
        Command::DeleteItems { ids: ItemIds::One(id), .. } => assert_eq!(id, "t1"),
        other => panic!("{other:?}"),
    }
    let gone =
        vec![board_open(), items(vec![track("t1")]), board_open(), deleted_one("t1")];
    assert!(done(client().delete_track(&uuid, &gone, 0)).is_ok());
    let absent = vec![board_open(), items(vec![track("t2")])];
    assert_eq!(
        said(client().delete_track(&uuid, &absent, 0)),
        "trace UUID 't1' was not found on the active board"
    );
    let absent = vec![board_open(), items(vec![via("v2")])];
    assert_eq!(
        said(client().delete_via(&uuid, &absent, 0)),
        "via UUID 't1' was not found on the active board"
    );
}

// Commits.

#[test]
fn a_commit_has_an_identifier() {
    let named = vec![Reply::Payload(Response::CommitBegun { id: Some("c1".into()) })];
    assert_eq!(done(client().begin_commit(&named, 0)).unwrap().value, "c1");
    let nameless = vec![Reply::Payload(Response::CommitBegun { id: None })];
    assert_eq!(
        said(client().begin_commit(&nameless, 0)),
        "KiCad returned BeginCommit without a commit identifier"
    );
    let empty = vec![Reply::Payload(Response::CommitBegun { id: Some(String::new()) })];
    assert_eq!(
        said(client().begin_commit(&empty, 0)),
        "KiCad returned an empty commit identifier"
    );
    assert_eq!(
        said(client().begin_commit(&vec![Reply::Empty], 0)),
        "KiCad returned no BeginCommit response payload"
    );
}

#[test]
fn commits_are_pushed_and_dropped() {
    let id: String = "c1".into();
    let none = vec![];
    match command(client().push_commit(Kiid { value: &id }, "reason", &none, 0)) {
        Command::EndCommit { id, action, message } => {
            assert_eq!((id.as_str(), action, message), ("c1", CommitAction::Commit, "reason"));
        }
        other => panic!("{other:?}"),
    }
    match command(client().drop_commit(Kiid { value: &id }, &none, 0)) {
        Command::EndCommit { action, message, .. } => {
            assert_eq!((action, message), (CommitAction::Drop, ""));
        }
        other => panic!("{other:?}"),
    }
    let ended = vec![Reply::Payload(Response::CommitEnded)];
    assert!(done(client().push_commit(Kiid { value: &id }, "reason", &ended, 0)).is_ok());
    assert_eq!(
        said(client().drop_commit(Kiid { value: &id }, &vec![Reply::Empty], 0)),
        "KiCad returned no EndCommit response payload"
    );
}

fn begun() -> Reply {
    Reply::Payload(Response::CommitBegun { id: Some("c1".into()) })
}

fn ended() -> Reply {
    Reply::Payload(Response::CommitEnded)
}

fn outcome(operation: Operation, replies: Vec<Reply>) -> Result<CommitEnd, String> {
    done(client().run_commit("reason", &Some(operation), &replies, 0))
        .map_err(|e| e.describe_fully())
}

#[test]
fn the_operation_runs_inside_the_commit() {
    let replies = vec![begun()];
    match next(client().run_commit("reason", &None, &replies, 0)) {
        Task::Run { commit } => assert_eq!(commit, "c1"),
        other => panic!("{other:?}"),
    }
    match command(client().run_commit("reason", &Some(Operation::Succeeded), &replies, 0)) {
        Command::EndCommit { action, .. } => assert_eq!(action, CommitAction::Commit),
        other => panic!("{other:?}"),
    }
    for over in [Operation::Failed(IpcError::say("no")), Operation::Panicked] {
        match command(client().run_commit("reason", &Some(over), &replies, 0)) {
            Command::EndCommit { action, .. } => assert_eq!(action, CommitAction::Drop),
            other => panic!("{other:?}"),
        }
    }
}

#[test]
fn a_batch_is_published_or_dropped() {
    assert_eq!(outcome(Operation::Succeeded, vec![begun(), ended()]), Ok(CommitEnd::Published));
    assert_eq!(outcome(Operation::Panicked, vec![begun(), ended()]), Ok(CommitEnd::Unwind));
    let broken = || Operation::Failed(IpcError::say("no"));
    assert_eq!(
        outcome(broken(), vec![begun(), ended()]),
        Err("KiCad batch failed; changes dropped: no".into())
    );
    assert_eq!(
        outcome(broken(), vec![begun(), failed("lost")]),
        Err("KiCad batch failed (no); rollback also failed (lost)".into())
    );
    assert_eq!(
        outcome(Operation::Panicked, vec![begun(), failed("lost")]),
        Err("KiCad batch panicked and rollback failed (lost)".into())
    );
    assert_eq!(
        outcome(Operation::Succeeded, vec![begun(), failed("busy"), ended()]),
        Err("failed to publish KiCad commit; changes dropped: busy".into())
    );
    assert_eq!(
        outcome(Operation::Succeeded, vec![begun(), failed("busy"), failed("lost")]),
        Err("failed to publish KiCad commit (busy); rollback also failed (lost)".into())
    );
    assert_eq!(outcome(Operation::Succeeded, vec![failed("shut")]), Err("shut".into()));
}

// Tracks and vias.

#[test]
fn a_track_is_added_with_its_net() {
    let replies = vec![board_open(), nets(), board_open()];
    let step = client().add_track(
        "GND",
        "F.Cu",
        s(0.25),
        (s(1.0), s(2.0)),
        (s(3.0), s(4.0)),
        &replies,
        0,
    );
    match command(step) {
        Command::CreateItems { items: NewItems::Track(track), .. } => {
            assert_eq!((track.net_name, track.net_code, track.layer), ("GND", 4, "F.Cu"));
            assert_eq!(track.width, s(0.25));
            assert_eq!([track.x1, track.y1, track.x2, track.y2], [s(1.0), s(2.0), s(3.0), s(4.0)]);
        }
        other => panic!("{other:?}"),
    }
}

#[test]
fn a_via_is_added_with_its_net() {
    let replies = vec![board_open(), nets(), board_open()];
    let step = client().add_via("GND", s(1.0), s(2.0), s(0.4), s(0.8), &replies, 0);
    match command(step) {
        Command::CreateItems { items: NewItems::Via(via), .. } => {
            assert_eq!((via.net_name, via.net_code), ("GND", 4));
            assert_eq!([via.x, via.y, via.drill, via.pad_size], [s(1.0), s(2.0), s(0.4), s(0.8)]);
        }
        other => panic!("{other:?}"),
    }
    let finished = vec![board_open(), nets(), board_open(), created_one()];
    let step = client().add_via("GND", s(1.0), s(2.0), s(0.4), s(0.8), &finished, 0);
    assert!(done(step).is_ok());
    let unknown = vec![board_open(), nets()];
    assert!(done(client().add_via("VCC", s(1.0), s(2.0), s(0.4), s(0.8), &unknown, 0)).is_err());
}

fn order(net_name: &str) -> TrackOrder<'_> {
    TrackOrder {
        net_name,
        layer: "F.Cu",
        width: s(0.25),
        from: Point { x: s(0.0), y: s(0.0) },
        to: Point { x: s(1.0), y: s(0.0) },
    }
}

#[test]
fn tracks_are_added_one_after_another() {
    let orders = vec![order("GND"), order("GND")];
    let one = || vec![board_open(), nets(), board_open(), created_one()];
    let first = one();
    assert!(matches!(
        command(client().add_tracks(&orders, &first, 0)),
        Command::GetOpenDocuments
    ));
    let mut both = one();
    both.extend(one());
    match client().add_tracks(&orders, &both, 0) {
        Step::Done(result, used) => {
            assert!(result.is_ok());
            assert_eq!(used, 8);
        }
        Step::Next(task) => panic!("{task:?}"),
    }
    let wrong = vec![order("GND"), order("VCC")];
    assert!(done(client().add_tracks(&wrong, &both, 0)).is_err());
}

#[test]
fn nothing_is_added_in_place_of_an_unknown_track() {
    let uuid: String = "t1".into();
    let absent = vec![board_open(), items(vec![])];
    assert!(done(client().replace_track(&uuid, order("GND"), &absent, 0)).is_err());
    let gone = vec![
        board_open(),
        items(vec![track("t1")]),
        board_open(),
        deleted_one("t1"),
        board_open(),
        nets(),
        board_open(),
    ];
    assert!(matches!(
        command(client().replace_track(&uuid, order("GND"), &gone, 0)),
        Command::CreateItems { .. }
    ));
}

// Footprints.

#[test]
fn a_footprint_moves_from_where_it_is() {
    let replies = vec![board_open(), footprints(vec![instance("f1", "R1")])];
    match next(client().move_footprint("R1", v(30, 40), &replies, 0)) {
        Task::Edit { item, edit: FootprintEdit::MoveTo { from, to } } => {
            assert_eq!(item.value, vec![9]);
            assert_eq!((from, to), (v(10, 20), v(30, 40)));
        }
        other => panic!("{other:?}"),
    }
    let edited = vec![
        board_open(),
        footprints(vec![instance("f1", "R1")]),
        Reply::Payload(Response::Edited(packed(5))),
        board_open(),
    ];
    match command(client().move_footprint("R1", v(30, 40), &edited, 0)) {
        Command::UpdateItems { items: ItemUpdates::One(item), .. } => {
            assert_eq!(item.value, vec![5]);
        }
        other => panic!("{other:?}"),
    }
    let finished = vec![
        board_open(),
        footprints(vec![instance("f1", "R1")]),
        Reply::Payload(Response::Edited(packed(5))),
        board_open(),
        updated_one(),
    ];
    assert!(done(client().move_footprint("R1", v(30, 40), &finished, 0)).is_ok());
    assert_eq!(
        said(client().move_footprint("R9", v(30, 40), &finished, 0)),
        "Footprint 'R9' not found"
    );
}

#[test]
fn a_footprint_turns_around_its_anchor() {
    let replies = vec![board_open(), footprints(vec![instance("f1", "R1")])];
    match next(client().rotate_footprint("R1", s(90.0), &replies, 0)) {
        Task::Edit { edit: FootprintEdit::RotateTo { anchor, from, to }, .. } => {
            assert_eq!((anchor, from, to), (v(10, 20), s(45.0), s(90.0)));
        }
        other => panic!("{other:?}"),
    }
}

#[test]
fn a_value_needs_a_field() {
    let replies = vec![board_open(), footprints(vec![instance("f1", "R1")])];
    match next(client().set_footprint_value("R1", "22k", &replies, 0)) {
        Task::Edit { edit: FootprintEdit::SetValue { value, in_definition }, .. } => {
            assert_eq!((value, in_definition), ("22k", true));
        }
        other => panic!("{other:?}"),
    }
    let mut bare = instance("f1", "R1");
    bare.value_field = None;
    let replies = vec![board_open(), footprints(vec![bare])];
    assert_eq!(
        said(client().set_footprint_value("R1", "22k", &replies, 0)),
        "Footprint 'R1' has no editable value field"
    );
    let mut plain = instance("f1", "R1");
    plain.definition = None;
    let replies = vec![board_open(), footprints(vec![plain])];
    match next(client().set_footprint_value("R1", "22k", &replies, 0)) {
        Task::Edit { edit: FootprintEdit::SetValue { in_definition, .. }, .. } => {
            assert!(!in_definition);
        }
        other => panic!("{other:?}"),
    }
}

#[test]
fn a_deleted_footprint_must_be_gone() {
    let deletion = |after: Reply| {
        vec![
            board_open(),
            footprints(vec![instance("f1", "R1")]),
            board_open(),
            deleted_one("f1"),
            board_open(),
            after,
        ]
    };
    let gone = deletion(footprints(vec![]));
    assert!(done(client().delete_footprint("R1", &gone, 0)).is_ok());
    let there = deletion(footprints(vec![instance("f1", "R1")]));
    assert_eq!(
        said(client().delete_footprint("R1", &there, 0)),
        "KiCad reported no error but footprint 'R1' is still on the board"
    );
    let dead = deletion(failed("NNG recv failed: timed out"));
    assert_eq!(
        said(client().delete_footprint("R1", &dead, 0)),
        "NNG recv failed: timed out"
    );
    let garbled = deletion(Reply::Payload(Response::Undecodable("bad varint".into())));
    assert!(done(client().delete_footprint("R1", &garbled, 0)).is_err());
    let absent = vec![board_open(), footprints(vec![])];
    assert!(done(client().delete_footprint("R1", &absent, 0)).is_err());
}

fn text_item(text: &str) -> FieldItem {
    FieldItem {
        name: "n".into(),
        text: text.into(),
        position: v(0, 0),
        size: v(1, 1),
        angle: s(0.0),
        layer: "F.SilkS".into(),
        visible: true,
    }
}

fn new_footprint() -> Result<FootprintItem, IpcError> {
    Ok(FootprintItem {
        library_nickname: "Lib".into(),
        entry_name: "Fp".into(),
        position: v(1, 2),
        orientation: s(0.0),
        layer: "F.Cu".into(),
        reference: text_item("R1"),
        value: text_item("R"),
        children: vec![],
    })
}

#[test]
fn a_placed_footprint_must_be_there() {
    let board = facts("/work/a.kicad_pcb");
    let item = new_footprint();
    let before = vec![board_open(), footprints(vec![instance("f0", "R0")])];
    match command(client().place_footprint(&board, "R1", &item, &before, 0)) {
        Command::CreateItems { items: NewItems::Footprint(made), .. } => {
            assert_eq!(made.entry_name, "Fp");
        }
        other => panic!("{other:?}"),
    }
    let placed = vec![
        board_open(),
        footprints(vec![]),
        created_one(),
        footprints(vec![instance("f1", "R1")]),
    ];
    let footprint = done(client().place_footprint(&board, "R1", &item, &placed, 0)).unwrap();
    assert_eq!(footprint.reference, "R1");
    assert_eq!(footprint.position, v(10, 20));
    let lost = vec![
        board_open(),
        footprints(vec![]),
        created_one(),
        footprints(vec![instance("f2", "R2"), instance("f3", "R3")]),
    ];
    assert_eq!(
        said(client().place_footprint(&board, "R1", &item, &lost, 0)),
        "KiCad created the footprint but reference 'R1' was not found (board references: R2, R3)"
    );
}

#[test]
fn a_reference_is_not_placed_twice() {
    let board = facts("/work/a.kicad_pcb");
    let taken = vec![board_open(), footprints(vec![instance("f1", "R1")])];
    assert_eq!(
        said(client().place_footprint(&board, "R1", &new_footprint(), &taken, 0)),
        "footprint reference 'R1' already exists on the board"
    );
    let free = vec![board_open(), footprints(vec![])];
    let broken = Err(IpcError::say("no such library"));
    assert_eq!(
        said(client().place_footprint(&board, "R1", &broken, &free, 0)),
        "no such library"
    );
    let elsewhere = facts("/work/z.kicad_pcb");
    assert!(done(client().place_footprint(&elsewhere, "R1", &new_footprint(), &free, 0)).is_err());
}

#[test]
fn kinds_are_asked_for_by_name() {
    let open = vec![board_open()];
    let uuid: String = "v1".into();
    match command(client().delete_via(&uuid, &open, 0)) {
        Command::GetItems { kind, .. } => assert_eq!(kind, ItemKind::Via),
        other => panic!("{other:?}"),
    }
}
