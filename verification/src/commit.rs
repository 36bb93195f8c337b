//! Commits: groups of changes that are published or dropped together.

use crate::envelope::KiCadIpcClient;
use crate::error::{headline, in_context, plain, CauseView, IpcError};
use crate::messages::Response;
use crate::step::{
    decode_failure, exchange, exchanged, followed, missing_payload, payload_missing, undecoded,
    Command, CommitAction, Kiid, Progress, Reply, Step, Task,
};
use vstd::prelude::*;
use vstd::string::*;

verus! {

pub open spec fn no_commit_id_text() -> Seq<char> {
    "KiCad returned BeginCommit without a commit identifier"@
}

pub open spec fn empty_commit_id_text() -> Seq<char> {
    "KiCad returned an empty commit identifier"@
}

/// Begins a commit and has its identifier.
pub open spec fn begun<'a>(replies: Seq<Reply>, at: int) -> Progress<'a, Kiid<'a>> {
    followed(
        exchanged(replies, at, Command::BeginCommit),
        |response: Option<Response>, used: int|
            match response {
                None => Progress::Done(Err(missing_payload("BeginCommit"@)), used),
                Some(Response::CommitBegun { id: None }) => Progress::Done(
                    Err(plain(no_commit_id_text())),
                    used,
                ),
                Some(Response::CommitBegun { id: Some(id) }) => if id@.len() == 0 {
                    Progress::Done(Err(plain(empty_commit_id_text())), used)
                } else {
                    Progress::Done(Ok(Kiid { value: &id }), used)
                },
                Some(other) => Progress::Done(Err(undecoded(other)), used),
            },
    )
}

/// Ends a commit.
pub open spec fn ended<'a>(
    id: Kiid<'a>,
    action: CommitAction,
    message: &'a str,
    replies: Seq<Reply>,
    at: int,
) -> Progress<'a, ()> {
    followed(
        exchanged(replies, at, Command::EndCommit { id: id.value, action, message }),
        |response: Option<Response>, used: int|
            match response {
                None => Progress::Done(Err(missing_payload("EndCommit"@)), used),
                Some(Response::CommitEnded) => Progress::Done(Ok(()), used),
                Some(other) => Progress::Done(Err(undecoded(other)), used),
            },
    )
}

/// Publishes the changes of a commit.
pub open spec fn pushed<'a>(
    id: Kiid<'a>,
    description: &'a str,
    replies: Seq<Reply>,
    at: int,
) -> Progress<'a, ()> {
    ended(id, CommitAction::Commit, description, replies, at)
}

/// Takes the changes of a commit back.
pub open spec fn dropped<'a>(id: Kiid<'a>, replies: Seq<Reply>, at: int) -> Progress<'a, ()> {
    ended(id, CommitAction::Drop, "", replies, at)
}

/// How the operation of a commit came out.
#[derive(Debug)]
pub enum Operation {
    Succeeded,
    Failed(IpcError),
    Panicked,
}

/// How a commit came out where it did not fail.
#[derive(Clone, Copy, Debug, PartialEq, Eq, Structural)]
pub enum CommitEnd {
    /// The operation succeeded and its changes are published.
    Published,
    /// The operation panicked and its changes were dropped: the panic is to go on.
    Unwind,
}

impl DeepView for CommitEnd {
    type V = CommitEnd;

    open spec fn deep_view(&self) -> CommitEnd {
        *self
    }
}

pub open spec fn panicked_text(rollback: Seq<CauseView>) -> Seq<char> {
    "KiCad batch panicked and rollback failed ("@ + headline(rollback) + ")"@
}

pub open spec fn unpublished_text(error: Seq<CauseView>, rollback: Seq<CauseView>) -> Seq<char> {
    "failed to publish KiCad commit ("@ + headline(error) + "); rollback also failed (" @
        + headline(rollback) + ")"@
}

pub open spec fn failed_text(error: Seq<CauseView>, rollback: Seq<CauseView>) -> Seq<char> {
    "KiCad batch failed ("@ + headline(error) + "); rollback also failed ("@ + headline(rollback)
        + ")"@
}

/// Ends a commit whose operation is over.
pub open spec fn wound_up<'a>(
    id: Kiid<'a>,
    description: &'a str,
    operation: Operation,
    replies: Seq<Reply>,
    at: int,
) -> Progress<'a, CommitEnd> {
    match operation {
        Operation::Panicked => match dropped(id, replies, at) {
            Progress::Next(task) => Progress::Next(task),
            Progress::Done(Err(rollback), used) => Progress::Done(
                Err(plain(panicked_text(rollback))),
                used,
            ),
            Progress::Done(Ok(_), used) => Progress::Done(Ok(CommitEnd::Unwind), used),
        },
        Operation::Failed(error) => match dropped(id, replies, at) {
            Progress::Next(task) => Progress::Next(task),
            Progress::Done(Err(rollback), used) => Progress::Done(
                Err(plain(failed_text(error.deep_view(), rollback))),
                used,
            ),
            Progress::Done(Ok(_), used) => Progress::Done(
                Err(in_context(error.deep_view(), "KiCad batch failed; changes dropped"@)),
                used,
            ),
        },
        Operation::Succeeded => match pushed(id, description, replies, at) {
            Progress::Next(task) => Progress::Next(task),
            Progress::Done(Ok(_), used) => Progress::Done(Ok(CommitEnd::Published), used),
            Progress::Done(Err(error), at2) => match dropped(id, replies, at2) {
                Progress::Next(task) => Progress::Next(task),
                Progress::Done(Err(rollback), used) => Progress::Done(
                    Err(plain(unpublished_text(error, rollback))),
                    used,
                ),
                Progress::Done(Ok(_), used) => Progress::Done(
                    Err(in_context(error, "failed to publish KiCad commit; changes dropped"@)),
                    used,
                ),
            },
        },
    }
}

/// Begins a commit, has the operation run and ends the commit.
pub open spec fn committed<'a>(
    description: &'a str,
    operation: Option<Operation>,
    replies: Seq<Reply>,
    at: int,
) -> Progress<'a, CommitEnd> {
    followed(
        begun(replies, at),
        |id: Kiid<'a>, used: int|
            match operation {
                None => Progress::Next(Task::Run { commit: id.value }),
                Some(over) => wound_up(id, description, over, replies, used),
            },
    )
}

fn three(a: &str, b: &String, c: &str) -> (r: String)
    ensures
        r@ == a@ + b@ + c@,
{
    let mut out = a.to_owned();
    out.append(b.as_str());
    out.append(c);
    out
}

impl KiCadIpcClient {
    /// Begins a commit.
    pub fn begin_commit<'a>(&self, replies: &'a Vec<Reply>, at: usize) -> (r: Step<'a, Kiid<'a>>)
        ensures
            r.deep_view() == begun(replies@, at as int),
    {
        match exchange(replies, at, Command::BeginCommit) {
            Step::Next(task) => Step::Next(task),
            Step::Done(Err(error), used) => Step::Done(Err(error), used),
            Step::Done(Ok(response), used) => match response {
                None => Step::Done(Err(payload_missing("BeginCommit")), used),
                Some(Response::CommitBegun { id: None }) => Step::Done(
                    Err(IpcError::say("KiCad returned BeginCommit without a commit identifier")),
                    used,
                ),
                Some(Response::CommitBegun { id: Some(id) }) => if id.as_str().is_empty() {
                    Step::Done(
                        Err(IpcError::say("KiCad returned an empty commit identifier")),
                        used,
                    )
                } else {
                    Step::Done(Ok(Kiid { value: id }), used)
                },
                Some(other) => Step::Done(Err(decode_failure(other)), used),
            },
        }
    }

    /// Ends a commit, publishing its changes or dropping them.
    pub fn end_commit<'a>(
        &self,
        commit_id: Kiid<'a>,
        action: CommitAction,
        message: &'a str,
        replies: &'a Vec<Reply>,
        at: usize,
    ) -> (r: Step<'a, ()>)
        ensures
            r.deep_view() == ended(commit_id, action, message, replies@, at as int),
    {
        let command = Command::EndCommit { id: commit_id.value, action, message };
        match exchange(replies, at, command) {
            Step::Next(task) => Step::Next(task),
            Step::Done(Err(error), used) => Step::Done(Err(error), used),
            Step::Done(Ok(response), used) => match response {
                None => Step::Done(Err(payload_missing("EndCommit")), used),
                Some(Response::CommitEnded) => Step::Done(Ok(()), used),
                Some(other) => Step::Done(Err(decode_failure(other)), used),
            },
        }
    }

    /// Publishes the changes of a commit.
    pub fn push_commit<'a>(
        &self,
        commit_id: Kiid<'a>,
        description: &'a str,
        replies: &'a Vec<Reply>,
        at: usize,
    ) -> (r: Step<'a, ()>)
        ensures
            r.deep_view() == pushed(commit_id, description, replies@, at as int),
    {
        self.end_commit(commit_id, CommitAction::Commit, description, replies, at)
    }

    /// Takes the changes of a commit back.
    pub fn drop_commit<'a>(&self, commit_id: Kiid<'a>, replies: &'a Vec<Reply>, at: usize) -> (r:
        Step<'a, ()>)
        ensures
            r.deep_view() == dropped(commit_id, replies@, at as int),
    {
        self.end_commit(commit_id, CommitAction::Drop, "", replies, at)
    }

    fn wind_up<'a>(
        &self,
        id: Kiid<'a>,
        description: &'a str,
        operation: &Operation,
        replies: &'a Vec<Reply>,
        at: usize,
    ) -> (r: Step<'a, CommitEnd>)
        ensures
            r.deep_view() == wound_up(id, description, *operation, replies@, at as int),
    {
        match operation {
            Operation::Panicked => match self.drop_commit(id, replies, at) {
                Step::Next(task) => Step::Next(task),
                Step::Done(Err(rollback), used) => {
                    let message = three(
                        "KiCad batch panicked and rollback failed (",
                        &rollback.describe(),
                        ")",
                    );
                    Step::Done(Err(IpcError::new(message)), used)
                },
                Step::Done(Ok(_), used) => Step::Done(Ok(CommitEnd::Unwind), used),
            },
            Operation::Failed(error) => match self.drop_commit(id, replies, at) {
                Step::Next(task) => Step::Next(task),
                Step::Done(Err(rollback), used) => {
                    let head = three(
                        "KiCad batch failed (",
                        &error.describe(),
                        "); rollback also failed (",
                    );
                    let message = three(head.as_str(), &rollback.describe(), ")");
                    Step::Done(Err(IpcError::new(message)), used)
                },
                Step::Done(Ok(_), used) => Step::Done(
                    Err(error.context("KiCad batch failed; changes dropped")),
                    used,
                ),
            },
            Operation::Succeeded => match self.push_commit(id, description, replies, at) {
                Step::Next(task) => Step::Next(task),
                Step::Done(Ok(_), used) => Step::Done(Ok(CommitEnd::Published), used),
                Step::Done(Err(error), at2) => match self.drop_commit(id, replies, at2) {
                    Step::Next(task) => Step::Next(task),
                    Step::Done(Err(rollback), used) => {
                        let head = three(
                            "failed to publish KiCad commit (",
                            &error.describe(),
                            "); rollback also failed (",
                        );
                        let message = three(head.as_str(), &rollback.describe(), ")");
                        Step::Done(Err(IpcError::new(message)), used)
                    },
                    Step::Done(Ok(_), used) => Step::Done(
                        Err(error.context("failed to publish KiCad commit; changes dropped")),
                        used,
                    ),
                },
            },
        }
    }

    /// Runs a change of several steps as one commit. Once the commit is begun, the caller runs
    /// the operation and hands in how it came out. A failed operation, and a failure to
    /// publish, have the commit dropped, so that no part of the change is knowingly left.
    pub fn run_commit<'a>(
        &self,
        description: &'a str,
        operation: &Option<Operation>,
        replies: &'a Vec<Reply>,
        at: usize,
    ) -> (r: Step<'a, CommitEnd>)
        ensures
            r.deep_view() == committed(description, *operation, replies@, at as int),
    {
        match self.begin_commit(replies, at) {
            Step::Next(task) => Step::Next(task),
            Step::Done(Err(error), used) => Step::Done(Err(error), used),
            Step::Done(Ok(id), used) => match operation {
                None => Step::Next(Task::Run { commit: id.value }),
                Some(over) => self.wind_up(id, description, over, replies, used),
            },
        }
    }
}

/// The command that ends a commit.
pub open spec fn end_command<'a>(id: Kiid<'a>, action: CommitAction, message: &'a str) -> Task<'a> {
    Task::Send(Command::EndCommit { id: id.value, action, message })
}

/// A batch is published only where its operation succeeded and KiCad took the publication.
pub proof fn only_a_successful_batch_is_published<'a>(
    description: &'a str,
    operation: Option<Operation>,
    replies: Seq<Reply>,
    at: int,
)
    ensures
        committed(description, operation, replies, at) matches Progress::Done(
            Ok(CommitEnd::Published),
            used,
        ) ==> {
            &&& operation matches Some(Operation::Succeeded)
            &&& begun(replies, at) matches Progress::Done(Ok(id), at2)
            &&& pushed(id, description, replies, at2) == Progress::Done(
                Ok::<(), Seq<CauseView>>(()),
                used,
            )
        },
        (committed(description, operation, replies, at) matches Progress::Next(
            Task::Send(Command::EndCommit { action, .. }),
        ) && action is Commit) ==> operation matches Some(Operation::Succeeded),
{
}

/// Where a commit was begun and its operation failed or panicked, or its publication failed,
/// what is done next is to drop that very commit; nothing is reported before it was tried.
pub proof fn an_unpublished_batch_is_dropped<'a>(
    description: &'a str,
    operation: Operation,
    replies: Seq<Reply>,
    at: int,
)
    requires
        begun(replies, at) is Done,
        begun(replies, at)->Done_0 is Ok,
    ensures
        ({
            let id = begun(replies, at)->Done_0->Ok_0;
            let used = begun(replies, at)->Done_1;
            let progress = committed(description, Some(operation), replies, at);
            &&& !(operation is Succeeded) ==> match progress {
                Progress::Next(task) => task == end_command(id, CommitAction::Drop, ""),
                Progress::Done(_, end) => dropped(id, replies, used) matches Progress::Done(
                    _,
                    tried,
                ) && tried == end,
            }
            &&& (operation is Succeeded && (pushed(id, description, replies, used) matches Progress::Done(
                Err(_),
                _,
            ))) ==> {
                let at2 = pushed(id, description, replies, used)->Done_1;
                match progress {
                    Progress::Next(task) => task == end_command(id, CommitAction::Drop, ""),
                    Progress::Done(result, end) => result is Err && (dropped(
                        id,
                        replies,
                        at2,
                    ) matches Progress::Done(_, tried) && tried == end),
                }
            }
        }),
{
}

} // verus!
