//! Questions about what is open in KiCad, and the plain commands.

use crate::board::{IpcBoardExtents, IpcLayer, IpcNet, LayerView, NetView};
use crate::envelope::KiCadIpcClient;
use crate::error::{plain, IpcError};
use crate::gather::{gather, lemma_gather_step, optional};
use crate::layers::{enabled_layer, list_layer};
use crate::messages::{
    origin, origin_spec, Box2, ComponentView, DocumentIdentifier, DocumentSpecifier, EnabledLayer,
    Item, ItemKind, Net, OpenDocument, PathComponent, PathFacts, Response, Vector2,
};
use crate::step::{
    decode_failure, exchange, exchanged, followed, undecoded, Command, Progress, Reply, Step,
};
use crate::text;
use crate::text::joined;
use vstd::prelude::*;
use vstd::string::*;

verus! {

// Documents.

/// A board's path: `file`, taken from `base` where there is one and `file` is relative.
#[derive(Clone, Copy, Debug)]
pub struct BoardPath<'a> {
    pub base: Option<&'a String>,
    pub file: &'a String,
}

/// The path of a document's board, where it is a board. A relative file name stands under the
/// project's path where the project has one.
pub open spec fn board_path<'a>(document: DocumentSpecifier) -> Option<BoardPath<'a>> {
    match document.identifier {
        Some(DocumentIdentifier::BoardFilename(file)) => Some(
            BoardPath {
                base: match document.project {
                    Some(project) => if project.path@.len() == 0 {
                        None
                    } else {
                        Some(&project.path)
                    },
                    None => None,
                },
                file: &file,
            },
        ),
        _ => None,
    }
}

pub fn board_document_path<'a>(document: &'a DocumentSpecifier) -> (r: Option<BoardPath<'a>>)
    ensures
        r == board_path(*document),
{
    match &document.identifier {
        Some(DocumentIdentifier::BoardFilename(file)) => {
            let base = match &document.project {
                Some(project) => if project.path.as_str().is_empty() {
                    None
                } else {
                    Some(&project.path)
                },
                None => None,
            };
            Some(BoardPath { base, file })
        },
        _ => None,
    }
}

/// The file name of a path: its last component, where that is a name.
pub open spec fn file_name_of(components: Seq<ComponentView>) -> Option<Seq<u8>> {
    if components.len() == 0 {
        None
    } else {
        match components.last() {
            ComponentView::Normal(name) => Some(name),
            _ => None,
        }
    }
}

/// Whether two paths name the same board: by their canonical forms where both have one. Else
/// a bare file name matches only that bare file name, and other paths must be equal.
pub open spec fn same_board(requested: PathFacts, active: PathFacts) -> bool {
    let (wanted, given) = (requested.components.deep_view(), active.components.deep_view());
    match (requested.canonical, active.canonical) {
        (Some(r), Some(a)) => r.deep_view() == a.deep_view(),
        _ => if given.len() == 1 {
            wanted.len() == 1 && file_name_of(wanted) == file_name_of(given)
        } else {
            wanted == given
        },
    }
}

fn same_name(a: &Vec<u8>, b: &Vec<u8>) -> (r: bool)
    ensures
        r == (a@ == b@),
{
    if a.len() != b.len() {
        return false;
    }
    let mut i: usize = 0;
    while i < a.len()
        invariant
            i <= a@.len(),
            a@.len() == b@.len(),
            forall|j: int| 0 <= j < i ==> a@[j] == b@[j],
        decreases a@.len() - i,
    {
        if a[i] != b[i] {
            return false;
        }
        i += 1;
    }
    assert(a@ == b@);
    true
}

fn same_component(a: &PathComponent, b: &PathComponent) -> (r: bool)
    ensures
        r == (a.deep_view() == b.deep_view()),
{
    match (a, b) {
        (PathComponent::Prefix(x), PathComponent::Prefix(y)) => same_name(x, y),
        (PathComponent::RootDir, PathComponent::RootDir) => true,
        (PathComponent::CurDir, PathComponent::CurDir) => true,
        (PathComponent::ParentDir, PathComponent::ParentDir) => true,
        (PathComponent::Normal(x), PathComponent::Normal(y)) => same_name(x, y),
        _ => false,
    }
}

fn same_components(a: &Vec<PathComponent>, b: &Vec<PathComponent>) -> (r: bool)
    ensures
        r == (a.deep_view() == b.deep_view()),
{
    let ghost (x, y) = (a.deep_view(), b.deep_view());
    if a.len() != b.len() {
        assert(x.len() != y.len());
        return false;
    }
    let mut i: usize = 0;
    while i < a.len()
        invariant
            i <= a@.len(),
            a@.len() == b@.len(),
            x == a.deep_view(),
            y == b.deep_view(),
            forall|j: int| 0 <= j < i ==> x[j] == y[j],
        decreases a@.len() - i,
    {
        assert(x[i as int] == a@[i as int].deep_view());
        assert(y[i as int] == b@[i as int].deep_view());
        if !same_component(&a[i], &b[i]) {
            return false;
        }
        i += 1;
    }
    assert(x == y);
    true
}

/// Whether two paths of one component each have the same file name, or both none.
fn same_bare_name(a: &PathComponent, b: &PathComponent) -> (r: bool)
    ensures
        r == (file_name_of(seq![a.deep_view()]) == file_name_of(seq![b.deep_view()])),
{
    match (a, b) {
        (PathComponent::Normal(x), PathComponent::Normal(y)) => same_name(x, y),
        (PathComponent::Normal(_), _) => false,
        (_, PathComponent::Normal(_)) => false,
        _ => true,
    }
}

pub fn paths_refer_to_same_board(requested: &PathFacts, active: &PathFacts) -> (r: bool)
    ensures
        r == same_board(*requested, *active),
{
    match (&requested.canonical, &active.canonical) {
        (Some(r), Some(a)) => same_components(r, a),
        _ => if active.components.len() == 1 {
            if requested.components.len() == 1 {
                let (wanted, given) = (&requested.components[0], &active.components[0]);
                assert(requested.components.deep_view() == seq![wanted.deep_view()]);
                assert(active.components.deep_view() == seq![given.deep_view()]);
                same_bare_name(wanted, given)
            } else {
                false
            }
        } else {
            same_components(&requested.components, &active.components)
        },
    }
}

/// A bare file name that KiCad reports does not stand for a longer path that is asked for,
/// unless the file system says that both are one file.
pub proof fn bare_name_needs_a_bare_request(requested: PathFacts, active: PathFacts)
    requires
        requested.canonical is None || active.canonical is None,
        active.components@.len() == 1,
        requested.components@.len() != 1,
    ensures
        !same_board(requested, active),
{
}

/// Every path names the same board as itself.
pub proof fn a_path_names_its_own_board(path: PathFacts)
    ensures
        same_board(path, path),
{
}

/// It does not matter which of two paths is asked for and which is open.
pub proof fn naming_one_board_is_mutual(a: PathFacts, b: PathFacts)
    ensures
        same_board(a, b) == same_board(b, a),
{
}

/// Where the file system knows both paths, their canonical forms alone decide.
pub proof fn canonical_forms_decide(a: PathFacts, b: PathFacts)
    requires
        a.canonical is Some,
        b.canonical is Some,
    ensures
        same_board(a, b) <==> a.canonical->Some_0.deep_view() == b.canonical->Some_0.deep_view(),
{
}

/// Where it does not, two paths that name the same board have as many components each, and
/// the same file name.
pub proof fn one_board_has_one_file_name(a: PathFacts, b: PathFacts)
    requires
        a.canonical is None || b.canonical is None,
        same_board(a, b),
    ensures
        a.components@.len() == b.components@.len(),
        file_name_of(a.components.deep_view()) == file_name_of(b.components.deep_view()),
{
    assert(a.components.deep_view().len() == a.components@.len());
    assert(b.components.deep_view().len() == b.components@.len());
}

/// The open documents.
pub open spec fn open_documents<'a>(replies: Seq<Reply>, at: int) -> Progress<
    'a,
    Seq<OpenDocument>,
> {
    followed(
        exchanged(replies, at, Command::GetOpenDocuments),
        |r: Option<Response>, used: int|
            match r {
                None => Progress::Done(Ok(Seq::empty()), used),
                Some(Response::OpenDocuments(documents)) => Progress::Done(
                    Ok(documents@),
                    used,
                ),
                Some(other) => Progress::Done(Err(undecoded(other)), used),
            },
    )
}

pub open spec fn no_board_text() -> Seq<char> {
    "No PCB document is open in KiCAD. Open a board file first."@
}

/// The first open board.
pub open spec fn board_document<'a>(replies: Seq<Reply>, at: int) -> Progress<
    'a,
    DocumentSpecifier,
> {
    followed(
        open_documents(replies, at),
        |documents: Seq<OpenDocument>, used: int|
            if documents.len() == 0 {
                Progress::Done(Err(plain(no_board_text())), used)
            } else {
                Progress::Done(Ok(documents[0].document), used)
            },
    )
}

/// Whether an open document is the board that is asked for.
pub open spec fn is_requested(document: OpenDocument, requested: PathFacts) -> bool {
    board_path(document.document) is Some && same_board(requested, document.place)
}

/// The first position at or after `i` of the board that is asked for.
pub open spec fn requested_from(
    documents: Seq<OpenDocument>,
    requested: PathFacts,
    i: int,
) -> Option<int>
    decreases documents.len() - i,
{
    if i < 0 || i >= documents.len() {
        None
    } else if is_requested(documents[i], requested) {
        Some(i)
    } else {
        requested_from(documents, requested, i + 1)
    }
}

/// How an open board is listed.
pub open spec fn board_label(document: OpenDocument) -> Seq<Seq<char>> {
    optional(
        if board_path(document.document) is Some {
            Some(document.place.display@)
        } else {
            None
        },
    )
}

/// The error for a board that is not open.
pub open spec fn not_open_text(documents: Seq<OpenDocument>, requested: PathFacts) -> Seq<char> {
    "requested board '"@ + requested.display@ + "' is not open in KiCAD (open boards: "@ + joined(
        gather(documents, |d: OpenDocument| board_label(d)),
        ", "@,
    ) + ")"@
}

/// The open board that is asked for.
pub open spec fn open_board<'a>(
    requested: PathFacts,
    replies: Seq<Reply>,
    at: int,
) -> Progress<'a, DocumentSpecifier> {
    followed(
        open_documents(replies, at),
        |documents: Seq<OpenDocument>, used: int|
            if documents.len() == 0 {
                Progress::Done(Err(plain(no_board_text())), used)
            } else {
                match requested_from(documents, requested, 0) {
                    Some(i) => Progress::Done(Ok(documents[i].document), used),
                    None => Progress::Done(
                        Err(plain(not_open_text(documents, requested))),
                        used,
                    ),
                }
            },
    )
}

impl KiCadIpcClient {
    /// The documents that are open.
    pub fn get_open_documents<'a>(&self, replies: &'a Vec<Reply>, at: usize) -> (r: Step<
        'a,
        Vec<&'a OpenDocument>,
    >)
        ensures
            r.deep_view() == open_documents(replies@, at as int),
    {
        match exchange(replies, at, Command::GetOpenDocuments) {
            Step::Next(task) => Step::Next(task),
            Step::Done(Err(error), used) => Step::Done(Err(error), used),
            Step::Done(Ok(response), used) => match response {
                None => {
                    let none: Vec<&'a OpenDocument> = Vec::new();
                    assert(none.deep_view() == Seq::<OpenDocument>::empty());
                    Step::Done(Ok(none), used)
                },
                Some(Response::OpenDocuments(documents)) => {
                    let all = text::refs(documents);
                    assert(all.deep_view() == documents@);
                    Step::Done(Ok(all), used)
                },
                Some(other) => Step::Done(Err(decode_failure(other)), used),
            },
        }
    }

    /// The first open board, which most commands are about.
    pub fn get_board_document<'a>(&self, replies: &'a Vec<Reply>, at: usize) -> (r: Step<
        'a,
        &'a DocumentSpecifier,
    >)
        ensures
            r.deep_view() == board_document(replies@, at as int),
    {
        match self.get_open_documents(replies, at) {
            Step::Next(task) => Step::Next(task),
            Step::Done(Err(error), used) => Step::Done(Err(error), used),
            Step::Done(Ok(documents), used) => if documents.len() == 0 {
                Step::Done(
                    Err(
                        IpcError::say("No PCB document is open in KiCAD. Open a board file first."),
                    ),
                    used,
                )
            } else {
                assert(documents.deep_view()[0] == *documents@[0]);
                Step::Done(Ok(&documents[0].document), used)
            },
        }
    }

    /// The open document of the board that is asked for, never another one.
    pub fn find_open_board<'a>(
        &self,
        requested: &PathFacts,
        replies: &'a Vec<Reply>,
        at: usize,
    ) -> (r: Step<'a, &'a DocumentSpecifier>)
        ensures
            r.deep_view() == open_board(*requested, replies@, at as int),
    {
        let (documents, used) = match self.get_open_documents(replies, at) {
            Step::Next(task) => {
                return Step::Next(task);
            },
            Step::Done(Err(error), used) => {
                return Step::Done(Err(error), used);
            },
            Step::Done(Ok(documents), used) => (documents, used),
        };
        if documents.len() == 0 {
            return Step::Done(
                Err(IpcError::say("No PCB document is open in KiCAD. Open a board file first.")),
                used,
            );
        }
        let ghost all = documents.deep_view();
        let ghost label = |d: OpenDocument| board_label(d);
        let mut open_names: Vec<String> = Vec::new();
        let mut i: usize = 0;
        while i < documents.len()
            invariant
                i <= documents@.len(),
                all == documents.deep_view(),
                label == (|d: OpenDocument| board_label(d)),
                open_documents(replies@, at as int) == Progress::Done(Ok(all), used as int),
                documents@.len() > 0,
                requested_from(all, *requested, 0) == requested_from(all, *requested, i as int),
                open_names.deep_view() == gather(all.take(i as int), label),
            decreases documents@.len() - i,
        {
            let open = documents[i];
            proof {
                assert(all[i as int] == *open);
                lemma_gather_step(all, label, i as int);
            }
            if board_document_path(&open.document).is_some() {
                if paths_refer_to_same_board(requested, &open.place) {
                    return Step::Done(Ok(&open.document), used);
                }
                let ghost before = open_names.deep_view();
                open_names.push(open.place.display.clone());
                assert(open_names.deep_view() == before.push(open.place.display@));
            }
            i += 1;
        }
        assert(all.take(all.len() as int) == all);
        let mut message = "requested board '".to_owned();
        message.append(requested.display.as_str());
        message.append("' is not open in KiCAD (open boards: ");
        message.append(text::join(&open_names, ", ").as_str());
        message.append(")");
        Step::Done(Err(IpcError::new(message)), used)
    }

    /// Fails unless the board that is asked for is open.
    pub fn ensure_board_is_active<'a>(
        &self,
        requested: &PathFacts,
        replies: &'a Vec<Reply>,
        at: usize,
    ) -> (r: Step<'a, ()>)
        ensures
            r.deep_view() == followed(
                open_board(*requested, replies@, at as int),
                |document: DocumentSpecifier, used: int| Progress::Done(Ok(()), used),
            ),
    {
        match self.find_open_board(requested, replies, at) {
            Step::Next(task) => Step::Next(task),
            Step::Done(Err(error), used) => Step::Done(Err(error), used),
            Step::Done(Ok(_), used) => Step::Done(Ok(()), used),
        }
    }
}

proof fn lemma_requested_from(documents: Seq<OpenDocument>, requested: PathFacts, i: int)
    requires
        0 <= i,
    ensures
        requested_from(documents, requested, i) matches Some(k) ==> i <= k < documents.len()
            && is_requested(documents[k], requested),
        requested_from(documents, requested, i) is None ==> forall|k: int|
            i <= k < documents.len() ==> !is_requested(#[trigger] documents[k], requested),
    decreases documents.len() - i,
{
    if i < documents.len() && !is_requested(documents[i], requested) {
        lemma_requested_from(documents, requested, i + 1);
    }
}

/// The board that an operation is pointed at is an open document that matches the path it was
/// asked for, wherever it stands among the open documents.
pub proof fn open_board_is_the_requested_one(
    requested: PathFacts,
    replies: Seq<Reply>,
    at: int,
    document: DocumentSpecifier,
    used: int,
)
    requires
        open_board(requested, replies, at) == Progress::Done(Ok(document), used),
    ensures
        0 <= at < replies.len(),
        replies[at] matches Reply::Payload(Response::OpenDocuments(documents)) && exists|i: int|
            0 <= i < documents@.len() && #[trigger] documents@[i].document == document
                && is_requested(documents@[i], requested),
{
    let documents = replies[at]->Payload_0->OpenDocuments_0;
    lemma_requested_from(documents@, requested, 0);
    let i = requested_from(documents@, requested, 0).unwrap();
    assert(documents@[i].document == document);
}

// Items, nets and layers.

/// The items of one kind in a document.
pub open spec fn items_in<'a>(
    document: DocumentSpecifier,
    kind: ItemKind,
    replies: Seq<Reply>,
    at: int,
) -> Progress<'a, Seq<Item>> {
    followed(
        exchanged(replies, at, Command::GetItems { document: &document, kind }),
        |r: Option<Response>, used: int|
            match r {
                None => Progress::Done(Ok(Seq::empty()), used),
                Some(Response::Items(items)) => Progress::Done(Ok(items@), used),
                Some(other) => Progress::Done(Err(undecoded(other)), used),
            },
    )
}

/// The items of one kind on the first open board.
pub open spec fn items_of<'a>(kind: ItemKind, replies: Seq<Reply>, at: int) -> Progress<
    'a,
    Seq<Item>,
> {
    followed(
        board_document(replies, at),
        |document: DocumentSpecifier, used: int| items_in(document, kind, replies, used),
    )
}

/// A net as it is listed; a net without a code has code 0.
pub open spec fn net_entry(net: Net) -> NetView {
    NetView {
        name: net.name@,
        netcode: match net.code {
            Some(code) => code,
            None => 0,
        },
    }
}

/// The nets of the first open board.
pub open spec fn board_nets<'a>(replies: Seq<Reply>, at: int) -> Progress<'a, Seq<NetView>> {
    followed(
        board_document(replies, at),
        |document: DocumentSpecifier, at2: int|
            followed(
                exchanged(replies, at2, Command::GetNets { board: &document }),
                |r: Option<Response>, used: int|
                    match r {
                        None => Progress::Done(Ok(Seq::empty()), used),
                        Some(Response::Nets(nets)) => Progress::Done(
                            Ok(nets@.map_values(|n: Net| net_entry(n))),
                            used,
                        ),
                        Some(other) => Progress::Done(Err(undecoded(other)), used),
                    },
            ),
    )
}

/// The first net at or after `i` with a name.
pub open spec fn net_named_from(nets: Seq<NetView>, name: Seq<char>, i: int) -> Option<NetView>
    decreases nets.len() - i,
{
    if i < 0 || i >= nets.len() {
        None
    } else if nets[i].name == name {
        Some(nets[i])
    } else {
        net_named_from(nets, name, i + 1)
    }
}

pub open spec fn net_missing_text(name: Seq<char>) -> Seq<char> {
    "Net '"@ + name + "' not found on board"@
}

/// The code of the first net with a name.
pub open spec fn net_code<'a>(name: Seq<char>, replies: Seq<Reply>, at: int) -> Progress<'a, i32> {
    followed(
        board_nets(replies, at),
        |nets: Seq<NetView>, used: int|
            match net_named_from(nets, name, 0) {
                Some(net) => Progress::Done(Ok(net.netcode), used),
                None => Progress::Done(Err(plain(net_missing_text(name))), used),
            },
    )
}

/// The enabled layers of the first open board.
pub open spec fn board_layers<'a>(replies: Seq<Reply>, at: int) -> Progress<'a, Seq<LayerView>> {
    followed(
        board_document(replies, at),
        |document: DocumentSpecifier, at2: int|
            followed(
                exchanged(replies, at2, Command::GetBoardEnabledLayers { board: &document }),
                |r: Option<Response>, used: int|
                    match r {
                        None => Progress::Done(Ok(Seq::empty()), used),
                        Some(Response::EnabledLayers(layers)) => Progress::Done(
                            Ok(layers@.map_values(|l: EnabledLayer| enabled_layer(l))),
                            used,
                        ),
                        Some(other) => Progress::Done(Err(undecoded(other)), used),
                    },
            ),
    )
}

/// A vector that may be missing, which then is the origin.
pub open spec fn vector_or_origin(v: Option<Vector2>) -> Vector2 {
    match v {
        Some(p) => p,
        None => origin_spec(),
    }
}

pub fn or_origin(v: Option<Vector2>) -> (r: Vector2)
    ensures
        r == vector_or_origin(v),
{
    match v {
        Some(p) => p,
        None => origin(),
    }
}

/// A bounding box as board extents.
pub open spec fn extents_of(b: Box2) -> IpcBoardExtents {
    IpcBoardExtents { min: vector_or_origin(b.position), size: vector_or_origin(b.size) }
}

pub open spec fn no_box_text() -> Seq<char> {
    "No bounding box returned from KiCAD"@
}

/// The box around all items of the first open board: the first box that KiCad returns.
pub open spec fn board_extents<'a>(replies: Seq<Reply>, at: int) -> Progress<'a, IpcBoardExtents> {
    followed(
        board_document(replies, at),
        |document: DocumentSpecifier, at2: int|
            followed(
                exchanged(replies, at2, Command::GetBoundingBox { document: &document }),
                |r: Option<Response>, used: int|
                    match r {
                        None => Progress::Done(Err(plain(no_box_text())), used),
                        Some(Response::BoundingBoxes(boxes)) => if boxes@.len() == 0 {
                            Progress::Done(Err(plain(no_box_text())), used)
                        } else {
                            Progress::Done(Ok(extents_of(boxes@[0])), used)
                        },
                        Some(other) => Progress::Done(Err(undecoded(other)), used),
                    },
            ),
    )
}

/// A command of which only success or failure matters.
pub open spec fn acknowledged<'a>(
    replies: Seq<Reply>,
    at: int,
    command: Command<'a>,
) -> Progress<'a, ()> {
    followed(
        exchanged(replies, at, command),
        |r: Option<Response>, used: int| Progress::Done(Ok(()), used),
    )
}

fn acknowledge<'a>(replies: &'a Vec<Reply>, at: usize, command: Command<'a>) -> (r: Step<'a, ()>)
    ensures
        r.deep_view() == acknowledged(replies@, at as int, command),
{
    match exchange(replies, at, command) {
        Step::Next(task) => Step::Next(task),
        Step::Done(Err(error), used) => Step::Done(Err(error), used),
        Step::Done(Ok(_), used) => Step::Done(Ok(()), used),
    }
}

impl KiCadIpcClient {
    /// Whether KiCad can be reached: a failure is an answer too.
    pub fn ping<'a>(&self, replies: &'a Vec<Reply>, at: usize) -> (r: Step<'a, bool>)
        ensures
            r.deep_view() == (match exchanged(replies@, at as int, Command::Ping) {
                Progress::Next(task) => Progress::Next(task),
                Progress::Done(result, used) => Progress::Done(Ok(result is Ok), used),
            }),
    {
        match exchange(replies, at, Command::Ping) {
            Step::Next(task) => Step::Next(task),
            Step::Done(Err(_), used) => Step::Done(Ok(false), used),
            Step::Done(Ok(_), used) => Step::Done(Ok(true), used),
        }
    }

    /// The items of one kind in a document.
    pub fn get_items_in<'a>(
        &self,
        document: &'a DocumentSpecifier,
        kind: ItemKind,
        replies: &'a Vec<Reply>,
        at: usize,
    ) -> (r: Step<'a, Vec<&'a Item>>)
        ensures
            r.deep_view() == items_in(*document, kind, replies@, at as int),
    {
        match exchange(replies, at, Command::GetItems { document, kind }) {
            Step::Next(task) => Step::Next(task),
            Step::Done(Err(error), used) => Step::Done(Err(error), used),
            Step::Done(Ok(response), used) => match response {
                None => {
                    let none: Vec<&'a Item> = Vec::new();
                    assert(none.deep_view() == Seq::<Item>::empty());
                    Step::Done(Ok(none), used)
                },
                Some(Response::Items(items)) => {
                    let all = text::refs(items);
                    assert(all.deep_view() == items@);
                    Step::Done(Ok(all), used)
                },
                Some(other) => Step::Done(Err(decode_failure(other)), used),
            },
        }
    }

    /// The items of one kind on the first open board.
    pub fn get_items<'a>(&self, kind: ItemKind, replies: &'a Vec<Reply>, at: usize) -> (r: Step<
        'a,
        Vec<&'a Item>,
    >)
        ensures
            r.deep_view() == items_of(kind, replies@, at as int),
    {
        match self.get_board_document(replies, at) {
            Step::Next(task) => Step::Next(task),
            Step::Done(Err(error), used) => Step::Done(Err(error), used),
            Step::Done(Ok(document), used) => self.get_items_in(document, kind, replies, used),
        }
    }

    /// The nets of the board.
    pub fn get_nets<'a>(&self, replies: &'a Vec<Reply>, at: usize) -> (r: Step<'a, Vec<IpcNet>>)
        ensures
            r.deep_view() == board_nets(replies@, at as int),
    {
        let (board, at2) = match self.get_board_document(replies, at) {
            Step::Next(task) => {
                return Step::Next(task);
            },
            Step::Done(Err(error), used) => {
                return Step::Done(Err(error), used);
            },
            Step::Done(Ok(board), used) => (board, used),
        };
        match exchange(replies, at2, Command::GetNets { board }) {
            Step::Next(task) => Step::Next(task),
            Step::Done(Err(error), used) => Step::Done(Err(error), used),
            Step::Done(Ok(response), used) => match response {
                None => {
                    let none: Vec<IpcNet> = Vec::new();
                    assert(none.deep_view() == Seq::<NetView>::empty());
                    Step::Done(Ok(none), used)
                },
                Some(Response::Nets(nets)) => {
                    let ghost all = nets@.map_values(|n: Net| net_entry(n));
                    let mut out: Vec<IpcNet> = Vec::new();
                    let mut i: usize = 0;
                    while i < nets.len()
                        invariant
                            i <= nets@.len(),
                            all == nets@.map_values(|n: Net| net_entry(n)),
                            out.deep_view() == all.take(i as int),
                        decreases nets@.len() - i,
                    {
                        let ghost before = out.deep_view();
                        let net = IpcNet {
                            name: nets[i].name.clone(),
                            netcode: match nets[i].code {
                                Some(code) => code,
                                None => 0,
                            },
                        };
                        out.push(net);
                        assert(out.deep_view() == before.push(net.deep_view()));
                        assert(all.take(i + 1) == all.take(i as int).push(all[i as int]));
                        i += 1;
                    }
                    assert(all.take(all.len() as int) == all);
                    Step::Done(Ok(out), used)
                },
                Some(other) => Step::Done(Err(decode_failure(other)), used),
            },
        }
    }

    /// The code of the net with a name.
    pub fn resolve_net_code<'a>(
        &self,
        net_name: &str,
        replies: &'a Vec<Reply>,
        at: usize,
    ) -> (r: Step<'a, i32>)
        ensures
            r.deep_view() == net_code(net_name@, replies@, at as int),
    {
        let (nets, used) = match self.get_nets(replies, at) {
            Step::Next(task) => {
                return Step::Next(task);
            },
            Step::Done(Err(error), used) => {
                return Step::Done(Err(error), used);
            },
            Step::Done(Ok(nets), used) => (nets, used),
        };
        let ghost all = nets.deep_view();
        let mut i: usize = 0;
        while i < nets.len()
            invariant
                i <= nets@.len(),
                all == nets.deep_view(),
                board_nets(replies@, at as int) == Progress::Done(Ok(all), used as int),
                net_named_from(all, net_name@, 0) == net_named_from(all, net_name@, i as int),
            decreases nets@.len() - i,
        {
            assert(all[i as int] == nets@[i as int].deep_view());
            if text::same(nets[i].name.as_str(), net_name) {
                return Step::Done(Ok(nets[i].netcode), used);
            }
            i += 1;
        }
        let mut message = "Net '".to_owned();
        message.append(net_name);
        message.append("' not found on board");
        Step::Done(Err(IpcError::new(message)), used)
    }

    /// The enabled layers of the board.
    pub fn get_layers<'a>(&self, replies: &'a Vec<Reply>, at: usize) -> (r: Step<'a, Vec<IpcLayer>>)
        ensures
            r.deep_view() == board_layers(replies@, at as int),
    {
        let (board, at2) = match self.get_board_document(replies, at) {
            Step::Next(task) => {
                return Step::Next(task);
            },
            Step::Done(Err(error), used) => {
                return Step::Done(Err(error), used);
            },
            Step::Done(Ok(board), used) => (board, used),
        };
        match exchange(replies, at2, Command::GetBoardEnabledLayers { board }) {
            Step::Next(task) => Step::Next(task),
            Step::Done(Err(error), used) => Step::Done(Err(error), used),
            Step::Done(Ok(response), used) => match response {
                None => {
                    let none: Vec<IpcLayer> = Vec::new();
                    assert(none.deep_view() == Seq::<LayerView>::empty());
                    Step::Done(Ok(none), used)
                },
                Some(Response::EnabledLayers(layers)) => {
                    let ghost all = layers@.map_values(|l: EnabledLayer| enabled_layer(l));
                    let mut out: Vec<IpcLayer> = Vec::new();
                    let mut i: usize = 0;
                    while i < layers.len()
                        invariant
                            i <= layers@.len(),
                            all == layers@.map_values(|l: EnabledLayer| enabled_layer(l)),
                            out.deep_view() == all.take(i as int),
                        decreases layers@.len() - i,
                    {
                        let ghost before = out.deep_view();
                        let layer = list_layer(&layers[i]);
                        out.push(layer);
                        assert(out.deep_view() == before.push(layer.deep_view()));
                        assert(all.take(i + 1) == all.take(i as int).push(all[i as int]));
                        i += 1;
                    }
                    assert(all.take(all.len() as int) == all);
                    Step::Done(Ok(out), used)
                },
                Some(other) => Step::Done(Err(decode_failure(other)), used),
            },
        }
    }

    /// The box around all items of the board.
    pub fn get_board_extents<'a>(&self, replies: &'a Vec<Reply>, at: usize) -> (r: Step<
        'a,
        IpcBoardExtents,
    >)
        ensures
            r.deep_view() == board_extents(replies@, at as int),
    {
        let (document, at2) = match self.get_board_document(replies, at) {
            Step::Next(task) => {
                return Step::Next(task);
            },
            Step::Done(Err(error), used) => {
                return Step::Done(Err(error), used);
            },
            Step::Done(Ok(document), used) => (document, used),
        };
        match exchange(replies, at2, Command::GetBoundingBox { document }) {
            Step::Next(task) => Step::Next(task),
            Step::Done(Err(error), used) => Step::Done(Err(error), used),
            Step::Done(Ok(response), used) => match response {
                None => Step::Done(
                    Err(IpcError::say("No bounding box returned from KiCAD")),
                    used,
                ),
                Some(Response::BoundingBoxes(boxes)) => if boxes.len() == 0 {
                    Step::Done(Err(IpcError::say("No bounding box returned from KiCAD")), used)
                } else {
                    Step::Done(
                        Ok(
                            IpcBoardExtents {
                                min: or_origin(boxes[0].position),
                                size: or_origin(boxes[0].size),
                            },
                        ),
                        used,
                    )
                },
                Some(other) => Step::Done(Err(decode_failure(other)), used),
            },
        }
    }

    /// Fills the board's zones anew.
    pub fn refill_zones<'a>(&self, replies: &'a Vec<Reply>, at: usize) -> (r: Step<'a, ()>)
        ensures
            r.deep_view() == followed(
                board_document(replies@, at as int),
                |document: DocumentSpecifier, used: int|
                    acknowledged(replies@, used, Command::RefillZones { board: &document }),
            ),
    {
        match self.get_board_document(replies, at) {
            Step::Next(task) => Step::Next(task),
            Step::Done(Err(error), used) => Step::Done(Err(error), used),
            Step::Done(Ok(board), used) => acknowledge(
                replies,
                used,
                Command::RefillZones { board },
            ),
        }
    }

    /// Saves the board.
    pub fn save_board<'a>(&self, replies: &'a Vec<Reply>, at: usize) -> (r: Step<'a, ()>)
        ensures
            r.deep_view() == followed(
                board_document(replies@, at as int),
                |document: DocumentSpecifier, used: int|
                    acknowledged(replies@, used, Command::SaveDocument { document: &document }),
            ),
    {
        match self.get_board_document(replies, at) {
            Step::Next(task) => Step::Next(task),
            Step::Done(Err(error), used) => Step::Done(Err(error), used),
            Step::Done(Ok(document), used) => acknowledge(
                replies,
                used,
                Command::SaveDocument { document },
            ),
        }
    }

    /// Runs one of KiCad's own actions.
    pub fn run_action<'a>(&self, action: &'a str, replies: &'a Vec<Reply>, at: usize) -> (r: Step<
        'a,
        (),
    >)
        ensures
            r.deep_view() == acknowledged(replies@, at as int, Command::RunAction { action }),
    {
        acknowledge(replies, at, Command::RunAction { action })
    }
}

} // verus!
