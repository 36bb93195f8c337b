//! Operations as functions of the replies so far.
//!
//! An operation of the client is a conversation: it sends a command, reads the reply and
//! goes on from there. Here it is a function of the replies that have come so far. It says
//! what to do next, such as which command to send, or how the operation ended and how many
//! replies it took. The caller does so, puts the reply behind the others and asks again.

use crate::error::{in_context, plain, CauseView, IpcError};
use crate::footprint_item::FootprintItem;
use crate::messages::{DocumentSpecifier, Item, ItemKind, PackedItem, Response, Vector2};
use crate::scalar::Scalar;
use vstd::prelude::*;
use vstd::string::*;

verus! {

/// What came back for a command.
#[derive(Debug)]
pub enum Reply {
    /// The command failed.
    Failed(IpcError),
    /// KiCad accepted it and sent no payload.
    Empty,
    Payload(Response),
}

/// How to end a commit.
#[derive(Clone, Copy, Debug, PartialEq, Eq, Structural)]
pub enum CommitAction {
    Commit,
    Drop,
}

/// A track that is to be created, in millimetres.
#[derive(Clone, Copy, Debug)]
pub struct NewTrack<'a> {
    pub net_name: &'a str,
    pub net_code: i32,
    pub layer: &'a str,
    pub width: Scalar,
    pub x1: Scalar,
    pub y1: Scalar,
    pub x2: Scalar,
    pub y2: Scalar,
}

/// A through via that is to be created, in millimetres.
#[derive(Clone, Copy, Debug)]
pub struct NewVia<'a> {
    pub net_name: &'a str,
    pub net_code: i32,
    pub x: Scalar,
    pub y: Scalar,
    pub drill: Scalar,
    pub pad_size: Scalar,
}

/// The items of a creation request.
#[derive(Clone, Copy, Debug)]
pub enum NewItems<'a> {
    Packed(&'a Vec<PackedItem>),
    Track(NewTrack<'a>),
    Via(NewVia<'a>),
    Footprint(&'a FootprintItem),
}

impl<'a> NewItems<'a> {
    pub open spec fn count(self) -> nat {
        match self {
            NewItems::Packed(items) => items@.len(),
            _ => 1,
        }
    }

    pub fn len(&self) -> (n: usize)
        ensures
            n == self.count(),
    {
        match self {
            NewItems::Packed(items) => items.len(),
            _ => 1,
        }
    }
}

/// A change to a footprint that is on the board.
#[derive(Clone, Copy, Debug)]
pub enum FootprintEdit<'a> {
    /// The anchor goes to `to`, and the children are shifted by as much.
    MoveTo { from: Vector2, to: Vector2 },
    /// The orientation becomes `to`, and the children turn around `anchor` by as much.
    RotateTo { anchor: Vector2, from: Scalar, to: Scalar },
    /// The value field's text, and that of the definition where it has one.
    SetValue { value: &'a str, in_definition: bool },
}

/// The items of an update request.
#[derive(Clone, Copy, Debug)]
pub enum ItemUpdates<'a> {
    One(&'a PackedItem),
    Many(&'a Vec<PackedItem>),
}

impl<'a> ItemUpdates<'a> {
    pub open spec fn count(self) -> nat {
        match self {
            ItemUpdates::One(_) => 1,
            ItemUpdates::Many(items) => items@.len(),
        }
    }

    pub fn len(&self) -> (n: usize)
        ensures
            n == self.count(),
    {
        match self {
            ItemUpdates::One(_) => 1,
            ItemUpdates::Many(items) => items.len(),
        }
    }
}

/// The identifiers of a deletion request.
#[derive(Clone, Copy, Debug)]
pub enum ItemIds<'a> {
    One(&'a String),
    Many(&'a Vec<String>),
}

impl<'a> ItemIds<'a> {
    pub open spec fn all(self) -> Seq<Seq<char>> {
        match self {
            ItemIds::One(id) => seq![id@],
            ItemIds::Many(ids) => ids.deep_view(),
        }
    }

    pub fn len(&self) -> (n: usize)
        ensures
            n == self.all().len(),
    {
        match self {
            ItemIds::One(_) => 1,
            ItemIds::Many(ids) => ids.len(),
        }
    }
}

/// An identifier that KiCad gave out.
#[derive(Clone, Copy, Debug)]
pub struct Kiid<'a> {
    pub value: &'a String,
}

impl<'a> DeepView for Kiid<'a> {
    type V = Kiid<'a>;

    open spec fn deep_view(&self) -> Kiid<'a> {
        *self
    }
}

/// A command to KiCad.
#[derive(Clone, Copy, Debug)]
pub enum Command<'a> {
    Ping,
    GetOpenDocuments,
    GetNets { board: &'a DocumentSpecifier },
    GetItems { document: &'a DocumentSpecifier, kind: ItemKind },
    CreateItems { document: &'a DocumentSpecifier, items: NewItems<'a> },
    UpdateItems { document: &'a DocumentSpecifier, items: ItemUpdates<'a> },
    DeleteItems { document: &'a DocumentSpecifier, ids: ItemIds<'a> },
    RefillZones { board: &'a DocumentSpecifier },
    SaveDocument { document: &'a DocumentSpecifier },
    BeginCommit,
    EndCommit { id: &'a String, action: CommitAction, message: &'a str },
    GetBoundingBox { document: &'a DocumentSpecifier },
    GetBoardEnabledLayers { board: &'a DocumentSpecifier },
    RunAction { action: &'a str },
}

pub open spec fn message_name_of(command: Command) -> Seq<char> {
    match command {
        Command::Ping => "kiapi.common.commands.Ping"@,
        Command::GetOpenDocuments => "kiapi.common.commands.GetOpenDocuments"@,
        Command::GetNets { .. } => "kiapi.board.commands.GetNets"@,
        Command::GetItems { .. } => "kiapi.common.commands.GetItems"@,
        Command::CreateItems { .. } => "kiapi.common.commands.CreateItems"@,
        Command::UpdateItems { .. } => "kiapi.common.commands.UpdateItems"@,
        Command::DeleteItems { .. } => "kiapi.common.commands.DeleteItems"@,
        Command::RefillZones { .. } => "kiapi.board.commands.RefillZones"@,
        Command::SaveDocument { .. } => "kiapi.common.commands.SaveDocument"@,
        Command::BeginCommit => "kiapi.common.commands.BeginCommit"@,
        Command::EndCommit { .. } => "kiapi.common.commands.EndCommit"@,
        Command::GetBoundingBox { .. } => "kiapi.common.commands.GetBoundingBox"@,
        Command::GetBoardEnabledLayers { .. } => "kiapi.board.commands.GetBoardEnabledLayers"@,
        Command::RunAction { .. } => "kiapi.common.commands.RunAction"@,
    }
}

impl<'a> Command<'a> {
    /// The protocol's name for the command's message.
    pub fn message_name(&self) -> (r: &'static str)
        ensures
            r@ == message_name_of(*self),
    {
        match self {
            Command::Ping => "kiapi.common.commands.Ping",
            Command::GetOpenDocuments => "kiapi.common.commands.GetOpenDocuments",
            Command::GetNets { .. } => "kiapi.board.commands.GetNets",
            Command::GetItems { .. } => "kiapi.common.commands.GetItems",
            Command::CreateItems { .. } => "kiapi.common.commands.CreateItems",
            Command::UpdateItems { .. } => "kiapi.common.commands.UpdateItems",
            Command::DeleteItems { .. } => "kiapi.common.commands.DeleteItems",
            Command::RefillZones { .. } => "kiapi.board.commands.RefillZones",
            Command::SaveDocument { .. } => "kiapi.common.commands.SaveDocument",
            Command::BeginCommit => "kiapi.common.commands.BeginCommit",
            Command::EndCommit { .. } => "kiapi.common.commands.EndCommit",
            Command::GetBoundingBox { .. } => "kiapi.common.commands.GetBoundingBox",
            Command::GetBoardEnabledLayers { .. } => "kiapi.board.commands.GetBoardEnabledLayers",
            Command::RunAction { .. } => "kiapi.common.commands.RunAction",
        }
    }
}

/// What the caller is to do before it asks again.
#[derive(Clone, Copy, Debug)]
pub enum Task<'a> {
    /// Send a command to KiCad; what came back is the next reply.
    Send(Command<'a>),
    /// Apply an edit to an item's message and pack it; the packed item is the next reply.
    Edit { item: &'a Item, edit: FootprintEdit<'a> },
    /// Run the operation for which the commit was begun.
    Run { commit: &'a String },
}

/// Where an operation stands: what is to be done next, or its result and the number of
/// replies it has read, those before it included.
#[derive(Debug)]
pub enum Step<'a, T> {
    Next(Task<'a>),
    Done(Result<T, IpcError>, usize),
}

/// `Step`, as contracts speak of it.
pub enum Progress<'a, V> {
    Next(Task<'a>),
    Done(Result<V, Seq<CauseView>>, int),
}

impl<'a, T: DeepView> DeepView for Step<'a, T> {
    type V = Progress<'a, T::V>;

    open spec fn deep_view(&self) -> Progress<'a, T::V> {
        match *self {
            Step::Next(task) => Progress::Next(task),
            Step::Done(Ok(value), used) => Progress::Done(Ok(value.deep_view()), used as int),
            Step::Done(Err(error), used) => Progress::Done(Err(error.deep_view()), used as int),
        }
    }
}

/// A result, as contracts speak of it.
pub open spec fn seen<T: DeepView>(r: Result<T, IpcError>) -> Result<T::V, Seq<CauseView>> {
    match r {
        Ok(value) => Ok(value.deep_view()),
        Err(error) => Err(error.deep_view()),
    }
}

/// `first`, and what follows from its value and the replies it has read.
pub open spec fn followed<'a, A, B>(
    first: Progress<'a, A>,
    next: spec_fn(A, int) -> Progress<'a, B>,
) -> Progress<'a, B> {
    match first {
        Progress::Next(task) => Progress::Next(task),
        Progress::Done(Err(error), used) => Progress::Done(Err(error), used),
        Progress::Done(Ok(value), used) => next(value, used),
    }
}

/// What `first` lists, and behind it what `next` lists.
pub open spec fn joined_lists<'a, B>(
    first: Progress<'a, Seq<B>>,
    next: spec_fn(int) -> Progress<'a, Seq<B>>,
) -> Progress<'a, Seq<B>> {
    followed(
        first,
        |head: Seq<B>, at: int|
            followed(next(at), |tail: Seq<B>, used: int| Progress::Done(Ok(head + tail), used)),
    )
}

/// An operation whose value is judged without further commands.
pub open spec fn judged<'a, A, B>(
    first: Progress<'a, A>,
    judge: spec_fn(A) -> Result<B, Seq<CauseView>>,
) -> Progress<'a, B> {
    followed(first, |value: A, used: int| Progress::Done(judge(value), used))
}

/// Sends `command` as the exchange number `at`.
pub open spec fn exchanged<'a>(
    replies: Seq<Reply>,
    at: int,
    command: Command<'a>,
) -> Progress<'a, Option<Response>> {
    if at < 0 || at >= replies.len() {
        Progress::Next(Task::Send(command))
    } else {
        match replies[at] {
            Reply::Failed(error) => Progress::Done(Err(error.deep_view()), at + 1),
            Reply::Empty => Progress::Done(Ok(None), at + 1),
            Reply::Payload(response) => Progress::Done(Ok(Some(response)), at + 1),
        }
    }
}

pub fn exchange<'a>(replies: &'a Vec<Reply>, at: usize, command: Command<'a>) -> (r: Step<
    'a,
    Option<&'a Response>,
>)
    ensures
        r.deep_view() == exchanged(replies@, at as int, command),
{
    if at >= replies.len() {
        Step::Next(Task::Send(command))
    } else {
        match &replies[at] {
            Reply::Failed(error) => Step::Done(Err(error.copy()), at + 1),
            Reply::Empty => Step::Done(Ok(None), at + 1),
            Reply::Payload(response) => Step::Done(Ok(Some(response)), at + 1),
        }
    }
}

/// The error for a payload that is not the message the command calls for.
pub open spec fn undecoded(response: Response) -> Seq<CauseView> {
    in_context(
        plain(
            match response {
                Response::Undecodable(reason) => reason@,
                _ => "the payload is another message"@,
            },
        ),
        "Failed to decode protobuf Any body"@,
    )
}

pub fn decode_failure(response: &Response) -> (r: IpcError)
    ensures
        r.deep_view() == undecoded(*response),
{
    let reason = match response {
        Response::Undecodable(reason) => reason.clone(),
        _ => "the payload is another message".to_owned(),
    };
    IpcError::new(reason).context("Failed to decode protobuf Any body")
}

/// The error for a command whose answer must have a payload and has none.
pub open spec fn missing_payload(command_name: Seq<char>) -> Seq<CauseView> {
    plain("KiCad returned no "@ + command_name + " response payload"@)
}

pub fn payload_missing(command_name: &str) -> (r: IpcError)
    ensures
        r.deep_view() == missing_payload(command_name@),
{
    let mut message = "KiCad returned no ".to_owned();
    message.append(command_name);
    message.append(" response payload");
    IpcError::new(message)
}

/// Has an edit applied to an item as the exchange number `at`.
pub open spec fn edited<'a>(
    replies: Seq<Reply>,
    at: int,
    item: Item,
    edit: FootprintEdit<'a>,
) -> Progress<'a, PackedItem> {
    if at < 0 || at >= replies.len() {
        Progress::Next(Task::Edit { item: &item, edit })
    } else {
        match replies[at] {
            Reply::Failed(error) => Progress::Done(Err(error.deep_view()), at + 1),
            Reply::Empty => Progress::Done(Err(missing_payload("Edit"@)), at + 1),
            Reply::Payload(Response::Edited(packed)) => Progress::Done(Ok(packed), at + 1),
            Reply::Payload(other) => Progress::Done(Err(undecoded(other)), at + 1),
        }
    }
}

pub fn apply_edit<'a>(
    replies: &'a Vec<Reply>,
    at: usize,
    item: &'a Item,
    edit: FootprintEdit<'a>,
) -> (r: Step<'a, &'a PackedItem>)
    ensures
        r.deep_view() == edited(replies@, at as int, *item, edit),
{
    if at >= replies.len() {
        Step::Next(Task::Edit { item, edit })
    } else {
        match &replies[at] {
            Reply::Failed(error) => Step::Done(Err(error.copy()), at + 1),
            Reply::Empty => Step::Done(Err(payload_missing("Edit")), at + 1),
            Reply::Payload(Response::Edited(packed)) => Step::Done(Ok(packed), at + 1),
            Reply::Payload(other) => Step::Done(Err(decode_failure(other)), at + 1),
        }
    }
}

} // verus!
