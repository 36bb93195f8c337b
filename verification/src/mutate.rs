//! Creating, updating and deleting items.
//!
//! KiCad answers for each item of a request. Success is reported only where the answers bear
//! it out.

use crate::envelope::KiCadIpcClient;
use crate::error::{plain, CauseView, IpcError};
use crate::gather::{gather_indexed, lemma_gather_indexed_step};
use crate::messages::{
    CreateResult, DeleteResult, DocumentSpecifier, ItemStatusCode, RequestStatus, Response,
    UpdateResult,
};
use crate::session::board_document;
use crate::step::{
    decode_failure, exchange, exchanged, followed, missing_payload, payload_missing, seen, undecoded,
    Command, ItemIds, ItemUpdates, NewItems, Progress, Reply, Step,
};
use crate::text;
use crate::text::{decimal, joined};
use vstd::prelude::*;
use vstd::string::*;

verus! {

/// A judgement with no value.
pub type Judged = Result<(), Seq<CauseView>>;

/// Whether KiCad took a request about items at all.
pub open spec fn request_verdict(status: RequestStatus, operation: Seq<char>) -> Judged {
    if status.ok {
        Ok(())
    } else {
        Err(plain("KiCad "@ + operation + " request failed with "@ + status.name@))
    }
}

pub fn ensure_item_request_ok(status: &RequestStatus, operation: &str) -> (r: Result<(), IpcError>)
    ensures
        seen(r) == request_verdict(*status, operation@),
{
    if status.ok {
        Ok(())
    } else {
        let mut message = "KiCad ".to_owned();
        message.append(operation);
        message.append(" request failed with ");
        message.append(status.name.as_str());
        Err(IpcError::new(message))
    }
}

// Creation.

/// The status code of a result; a missing status counts as unknown.
pub open spec fn creation_code(result: CreateResult) -> ItemStatusCode {
    match result.status {
        Some(status) => status.code,
        None => ItemStatusCode::IscUnknown,
    }
}

/// Whether a result is evidence that its item was created: it says so, or it says nothing and
/// the item came back.
pub open spec fn is_created(result: CreateResult) -> bool {
    match creation_code(result) {
        ItemStatusCode::IscOk => true,
        ItemStatusCode::IscUnknown => result.has_item,
        ItemStatusCode::Other => false,
    }
}

pub open spec fn creation_code_name(result: CreateResult) -> Seq<char> {
    match result.status {
        Some(status) => status.code_name@,
        None => "ISC_UNKNOWN"@,
    }
}

pub open spec fn creation_message(result: CreateResult) -> Seq<char> {
    match result.status {
        Some(status) => if status.error_message@.len() == 0 {
            "no error message"@
        } else {
            status.error_message@
        },
        None => "no error message"@,
    }
}

/// What is said of an item that was not created.
pub open spec fn rejection(index: int, result: CreateResult) -> Seq<Seq<char>> {
    if is_created(result) {
        Seq::empty()
    } else {
        seq![
            "item "@ + decimal(index as nat) + ": "@ + creation_code_name(result) + " ("@
                + creation_message(result) + ")"@,
        ]
    }
}

/// What is said of all items that were not created.
pub open spec fn rejections(results: Seq<CreateResult>) -> Seq<Seq<char>> {
    gather_indexed(results, |index: int, result: CreateResult| rejection(index, result))
}

/// How many items were created.
pub open spec fn created_count(results: Seq<CreateResult>) -> nat
    decreases results.len(),
{
    if results.len() == 0 {
        0
    } else {
        created_count(results.drop_last()) + if is_created(results.last()) {
            1nat
        } else {
            0
        }
    }
}

/// The request was taken and nothing was said of any item.
pub open spec fn nothing_created_text(expected: nat) -> Seq<char> {
    "KiCad created no items: the CreateItems response carried no items at all ("@ + decimal(
        expected,
    ) + " requested)"@
}

pub open spec fn partly_created_text(results: Seq<CreateResult>, expected: nat) -> Seq<char> {
    "KiCad created "@ + decimal(created_count(results)) + " of "@ + decimal(expected)
        + " requested items"@ + (if rejections(results).len() == 0 {
        ""@
    } else {
        ": "@
    }) + joined(rejections(results), "; "@)
}

/// The answer to a creation request, judged.
pub open spec fn creation_verdict(
    status: RequestStatus,
    results: Seq<CreateResult>,
    expected: nat,
) -> Judged {
    match request_verdict(status, "item creation"@) {
        Err(e) => Err(e),
        Ok(_) => if results.len() == 0 {
            Err(plain(nothing_created_text(expected)))
        } else if created_count(results) != expected {
            Err(plain(partly_created_text(results, expected)))
        } else {
            Ok(())
        },
    }
}

fn evidences_creation(result: &CreateResult) -> (r: bool)
    ensures
        r == is_created(*result),
{
    let code = match &result.status {
        Some(status) => status.code,
        None => ItemStatusCode::IscUnknown,
    };
    match code {
        ItemStatusCode::IscOk => true,
        ItemStatusCode::IscUnknown => result.has_item,
        ItemStatusCode::Other => false,
    }
}

fn describe_rejection(index: usize, result: &CreateResult) -> (r: String)
    requires
        !is_created(*result),
    ensures
        seq![r@] == rejection(index as int, *result),
{
    let mut out = "item ".to_owned();
    let number = text::write_decimal(index as u64);
    out.append(number.as_str());
    out.append(": ");
    match &result.status {
        Some(status) => out.append(status.code_name.as_str()),
        None => out.append("ISC_UNKNOWN"),
    }
    out.append(" (");
    match &result.status {
        Some(status) => if status.error_message.as_str().is_empty() {
            out.append("no error message")
        } else {
            out.append(status.error_message.as_str())
        },
        None => out.append("no error message"),
    }
    out.append(")");
    out
}

fn judge_creation(status: &RequestStatus, results: &Vec<CreateResult>, expected: usize) -> (r:
    Result<(), IpcError>)
    ensures
        seen(r) == creation_verdict(*status, results@, expected as nat),
{
    if let Err(error) = ensure_item_request_ok(status, "item creation") {
        return Err(error);
    }
    if results.len() == 0 {
        let mut message =
            "KiCad created no items: the CreateItems response carried no items at all (".to_owned();
        let number = text::write_decimal(expected as u64);
        message.append(number.as_str());
        message.append(" requested)");
        return Err(IpcError::new(message));
    }
    let ghost all = results@;
    let ghost pick = |index: int, result: CreateResult| rejection(index, result);
    let mut created: usize = 0;
    let mut refused: Vec<String> = Vec::new();
    let mut i: usize = 0;
    assert(refused.deep_view() == Seq::<Seq<char>>::empty());
    while i < results.len()
        invariant
            i <= results@.len(),
            created <= i,
            all == results@,
            pick == (|index: int, result: CreateResult| rejection(index, result)),
            created == created_count(all.take(i as int)),
            refused.deep_view() == gather_indexed(all.take(i as int), pick),
        decreases results@.len() - i,
    {
        proof {
            lemma_gather_indexed_step(all, pick, i as int);
            assert(all.take(i + 1).drop_last() == all.take(i as int));
            assert(all.take(i + 1).last() == all[i as int]);
        }
        let ghost before = refused.deep_view();
        if evidences_creation(&results[i]) {
            created += 1;
            assert(before + Seq::<Seq<char>>::empty() == before);
        } else {
            let said = describe_rejection(i, &results[i]);
            refused.push(said);
            assert(refused.deep_view() == before + seq![said@]);
        }
        i += 1;
    }
    assert(all.take(all.len() as int) == all);
    if created != expected {
        let mut message = "KiCad created ".to_owned();
        let done = text::write_decimal(created as u64);
        let wanted = text::write_decimal(expected as u64);
        message.append(done.as_str());
        message.append(" of ");
        message.append(wanted.as_str());
        message.append(" requested items");
        message.append(if refused.len() == 0 { "" } else { ": " });
        let reasons = text::join(&refused, "; ");
        message.append(reasons.as_str());
        return Err(IpcError::new(message));
    }
    Ok(())
}

/// Creates items in a document. An empty request is not sent.
pub open spec fn created_in<'a>(
    document: DocumentSpecifier,
    items: NewItems<'a>,
    replies: Seq<Reply>,
    at: int,
) -> Progress<'a, ()> {
    if items.count() == 0 {
        Progress::Done(Ok(()), at)
    } else {
        followed(
            exchanged(replies, at, Command::CreateItems { document: &document, items }),
            |response: Option<Response>, used: int|
                match response {
                    None => Progress::Done(Err(missing_payload("CreateItems"@)), used),
                    Some(Response::Created { status, results }) => Progress::Done(
                        creation_verdict(status, results@, items.count()),
                        used,
                    ),
                    Some(other) => Progress::Done(Err(undecoded(other)), used),
                },
        )
    }
}

/// Creates items on the first open board.
pub open spec fn created<'a>(items: NewItems<'a>, replies: Seq<Reply>, at: int) -> Progress<
    'a,
    (),
> {
    followed(
        board_document(replies, at),
        |document: DocumentSpecifier, used: int| created_in(document, items, replies, used),
    )
}

// Updates.

pub open spec fn update_fault(result: UpdateResult) -> Option<Seq<char>> {
    match result.status {
        None => Some("KiCad returned an update result without item status"@),
        Some(status) => if status.code is IscOk {
            None
        } else {
            Some(
                "KiCad item update failed: "@ + status.error_message@ + " ("@ + status.code_name@
                    + ")"@,
            )
        },
    }
}

/// The first fault at or after `i`.
pub open spec fn update_fault_from(results: Seq<UpdateResult>, i: int) -> Option<Seq<char>>
    decreases results.len() - i,
{
    if i < 0 || i >= results.len() {
        None
    } else {
        match update_fault(results[i]) {
            Some(fault) => Some(fault),
            None => update_fault_from(results, i + 1),
        }
    }
}

pub open spec fn update_count_text(got: nat, expected: nat) -> Seq<char> {
    "KiCad returned "@ + decimal(got) + " update results for "@ + decimal(expected)
        + " requested items"@
}

/// The answer to an update request, judged.
pub open spec fn update_verdict(
    status: RequestStatus,
    results: Seq<UpdateResult>,
    expected: nat,
) -> Judged {
    match request_verdict(status, "item update"@) {
        Err(e) => Err(e),
        Ok(_) => if results.len() != expected {
            Err(plain(update_count_text(results.len(), expected)))
        } else {
            match update_fault_from(results, 0) {
                Some(fault) => Err(plain(fault)),
                None => Ok(()),
            }
        },
    }
}

fn judge_update(status: &RequestStatus, results: &Vec<UpdateResult>, expected: usize) -> (r: Result<
    (),
    IpcError,
>)
    ensures
        seen(r) == update_verdict(*status, results@, expected as nat),
{
    if let Err(error) = ensure_item_request_ok(status, "item update") {
        return Err(error);
    }
    let got: usize = results.len();
    if got != expected {
        let mut message = "KiCad returned ".to_owned();
        let got_text = text::write_decimal(got as u64);
        let wanted = text::write_decimal(expected as u64);
        message.append(got_text.as_str());
        message.append(" update results for ");
        message.append(wanted.as_str());
        message.append(" requested items");
        return Err(IpcError::new(message));
    }
    let mut i: usize = 0;
    while i < results.len()
        invariant
            i <= results@.len(),
            status.ok,
            results@.len() == expected,
            update_fault_from(results@, 0) == update_fault_from(results@, i as int),
        decreases results@.len() - i,
    {
        match &results[i].status {
            None => {
                return Err(IpcError::say("KiCad returned an update result without item status"));
            },
            Some(status) => match status.code {
                ItemStatusCode::IscOk => {},
                _ => {
                    let mut message = "KiCad item update failed: ".to_owned();
                    message.append(status.error_message.as_str());
                    message.append(" (");
                    message.append(status.code_name.as_str());
                    message.append(")");
                    return Err(IpcError::new(message));
                },
            },
        }
        i += 1;
    }
    Ok(())
}

/// Updates items on the first open board. An empty request is not sent.
pub open spec fn updated<'a>(items: ItemUpdates<'a>, replies: Seq<Reply>, at: int) -> Progress<
    'a,
    (),
> {
    if items.count() == 0 {
        Progress::Done(Ok(()), at)
    } else {
        followed(
            board_document(replies, at),
            |document: DocumentSpecifier, at2: int|
                followed(
                    exchanged(replies, at2, Command::UpdateItems { document: &document, items }),
                    |response: Option<Response>, used: int|
                        match response {
                            None => Progress::Done(Err(missing_payload("UpdateItems"@)), used),
                            Some(Response::Updated { status, results }) => Progress::Done(
                                update_verdict(status, results@, items.count()),
                                used,
                            ),
                            Some(other) => Progress::Done(Err(undecoded(other)), used),
                        },
                ),
        )
    }
}

// Deletion.

pub open spec fn duplicate_ids_text() -> Seq<char> {
    "delete request contains duplicate item identifiers"@
}

/// Whether a result before `i` is about the same item.
pub open spec fn reported_before(results: Seq<DeleteResult>, i: int, id: Seq<char>) -> bool {
    exists|j: int|
        0 <= j < i && j < results.len() && (#[trigger] results[j]).id.deep_view() == Some(id)
}

/// What is wrong with a result of a deletion, the ones before it being in order.
pub open spec fn deletion_fault(
    ids: Seq<Seq<char>>,
    results: Seq<DeleteResult>,
    i: int,
) -> Option<Seq<char>> {
    match results[i].id {
        None => Some("KiCad returned a deletion result without an item identifier"@),
        Some(id) => if !ids.contains(id@) || reported_before(results, i, id@) {
            Some("KiCad returned a deletion result for unexpected item '"@ + id@ + "'"@)
        } else if !results[i].ok {
            Some("KiCad failed to delete item '"@ + id@ + "': "@ + results[i].status_name@)
        } else {
            None
        },
    }
}

/// The first fault at or after `i`.
pub open spec fn deletion_fault_from(
    ids: Seq<Seq<char>>,
    results: Seq<DeleteResult>,
    i: int,
) -> Option<Seq<char>>
    decreases results.len() - i,
{
    if i < 0 || i >= results.len() {
        None
    } else {
        match deletion_fault(ids, results, i) {
            Some(fault) => Some(fault),
            None => deletion_fault_from(ids, results, i + 1),
        }
    }
}

pub open spec fn deletion_count_text(got: nat, expected: nat) -> Seq<char> {
    "KiCad returned "@ + decimal(got) + " deletion results for "@ + decimal(expected)
        + " requested items"@
}

/// The answer to a deletion request, judged. KiCad 10 sends no results for deletions that
/// happened, so an empty list says nothing either way; any other list is held to the request.
pub open spec fn deletion_verdict(
    status: RequestStatus,
    results: Seq<DeleteResult>,
    ids: Seq<Seq<char>>,
) -> Judged {
    match request_verdict(status, "item deletion"@) {
        Err(e) => Err(e),
        Ok(_) => if results.len() == 0 {
            Ok(())
        } else if results.len() != ids.len() {
            Err(plain(deletion_count_text(results.len(), ids.len())))
        } else {
            match deletion_fault_from(ids, results, 0) {
                Some(fault) => Err(plain(fault)),
                None => Ok(()),
            }
        },
    }
}

fn was_reported(results: &Vec<DeleteResult>, end: usize, id: &str) -> (r: bool)
    requires
        end <= results@.len(),
    ensures
        r == reported_before(results@, end as int, id@),
{
    let mut j: usize = 0;
    while j < end
        invariant
            j <= end <= results@.len(),
            !reported_before(results@, j as int, id@),
        decreases end - j,
    {
        if let Some(other) = &results[j].id {
            if text::same(other.as_str(), id) {
                assert(results@[j as int].id.deep_view() == Some(id@));
                return true;
            }
        }
        j += 1;
    }
    false
}

fn holds_id(ids: &ItemIds, id: &str) -> (r: bool)
    ensures
        r == ids.all().contains(id@),
{
    match ids {
        ItemIds::One(only) => {
            let found = text::same(only.as_str(), id);
            proof {
                assert(ids.all()[0] == only@);
            }
            found
        },
        ItemIds::Many(all) => text::list_holds(all, id),
    }
}

fn judge_deletion(status: &RequestStatus, results: &Vec<DeleteResult>, ids: &ItemIds) -> (r: Result<
    (),
    IpcError,
>)
    ensures
        seen(r) == deletion_verdict(*status, results@, ids.all()),
{
    if let Err(error) = ensure_item_request_ok(status, "item deletion") {
        return Err(error);
    }
    if results.len() == 0 {
        return Ok(());
    }
    let expected: usize = ids.len();
    let got: usize = results.len();
    if got != expected {
        let mut message = "KiCad returned ".to_owned();
        let got_text = text::write_decimal(got as u64);
        let wanted = text::write_decimal(expected as u64);
        message.append(got_text.as_str());
        message.append(" deletion results for ");
        message.append(wanted.as_str());
        message.append(" requested items");
        return Err(IpcError::new(message));
    }
    let mut i: usize = 0;
    while i < results.len()
        invariant
            i <= results@.len(),
            status.ok,
            results@.len() == ids.all().len(),
            results@.len() > 0,
            deletion_fault_from(ids.all(), results@, 0) == deletion_fault_from(
                ids.all(),
                results@,
                i as int,
            ),
        decreases results@.len() - i,
    {
        match &results[i].id {
            None => {
                return Err(
                    IpcError::say("KiCad returned a deletion result without an item identifier"),
                );
            },
            Some(id) => {
                if !holds_id(ids, id.as_str()) || was_reported(results, i, id.as_str()) {
                    let mut message =
                        "KiCad returned a deletion result for unexpected item '".to_owned();
                    message.append(id.as_str());
                    message.append("'");
                    return Err(IpcError::new(message));
                }
                if !results[i].ok {
                    let mut message = "KiCad failed to delete item '".to_owned();
                    message.append(id.as_str());
                    message.append("': ");
                    message.append(results[i].status_name.as_str());
                    return Err(IpcError::new(message));
                }
            },
        }
        i += 1;
    }
    Ok(())
}

/// Deletes items from the first open board. An empty request is not sent, and one that names
/// an item twice is refused.
pub open spec fn deleted<'a>(ids: ItemIds<'a>, replies: Seq<Reply>, at: int) -> Progress<'a, ()> {
    if ids.all().len() == 0 {
        Progress::Done(Ok(()), at)
    } else if !ids.all().no_duplicates() {
        Progress::Done(Err(plain(duplicate_ids_text())), at)
    } else {
        followed(
            board_document(replies, at),
            |document: DocumentSpecifier, at2: int|
                followed(
                    exchanged(replies, at2, Command::DeleteItems { document: &document, ids }),
                    |response: Option<Response>, used: int|
                        match response {
                            None => Progress::Done(Err(missing_payload("DeleteItems"@)), used),
                            Some(Response::Deleted { status, results }) => Progress::Done(
                                deletion_verdict(status, results@, ids.all()),
                                used,
                            ),
                            Some(other) => Progress::Done(Err(undecoded(other)), used),
                        },
                ),
        )
    }
}

fn has_duplicates(ids: &Vec<String>) -> (r: bool)
    ensures
        r == !ids.deep_view().no_duplicates(),
{
    let ghost all = ids.deep_view();
    let mut i: usize = 0;
    while i < ids.len()
        invariant
            i <= ids@.len(),
            all == ids.deep_view(),
            forall|a: int, b: int|
                0 <= a < b < ids@.len() && a < i ==> #[trigger] all[a] != #[trigger] all[b],
        decreases ids@.len() - i,
    {
        let mut j: usize = i + 1;
        while j < ids.len()
            invariant
                i < j <= ids@.len(),
                all == ids.deep_view(),
                forall|b: int| i < b < j ==> all[i as int] != #[trigger] all[b],
            decreases ids@.len() - j,
        {
            assert(all[i as int] == ids@[i as int]@);
            assert(all[j as int] == ids@[j as int]@);
            if text::same(ids[i].as_str(), ids[j].as_str()) {
                return true;
            }
            j += 1;
        }
        i += 1;
    }
    false
}

impl KiCadIpcClient {
    /// Creates items in a document.
    pub fn create_items_in<'a>(
        &self,
        document: &'a DocumentSpecifier,
        items: NewItems<'a>,
        replies: &'a Vec<Reply>,
        at: usize,
    ) -> (r: Step<'a, ()>)
        ensures
            r.deep_view() == created_in(*document, items, replies@, at as int),
    {
        let expected: usize = items.len();
        if expected == 0 {
            return Step::Done(Ok(()), at);
        }
        match exchange(replies, at, Command::CreateItems { document, items }) {
            Step::Next(task) => Step::Next(task),
            Step::Done(Err(error), used) => Step::Done(Err(error), used),
            Step::Done(Ok(response), used) => match response {
                None => Step::Done(Err(payload_missing("CreateItems")), used),
                Some(Response::Created { status, results }) => Step::Done(
                    judge_creation(status, results, expected),
                    used,
                ),
                Some(other) => Step::Done(Err(decode_failure(other)), used),
            },
        }
    }

    /// Creates items on the board.
    pub fn create_items<'a>(&self, items: NewItems<'a>, replies: &'a Vec<Reply>, at: usize) -> (r:
        Step<'a, ()>)
        ensures
            r.deep_view() == created(items, replies@, at as int),
    {
        match self.get_board_document(replies, at) {
            Step::Next(task) => Step::Next(task),
            Step::Done(Err(error), used) => Step::Done(Err(error), used),
            Step::Done(Ok(document), used) => self.create_items_in(document, items, replies, used),
        }
    }

    /// Updates items of the board, each of which carries its identifier.
    pub fn update_items<'a>(&self, items: ItemUpdates<'a>, replies: &'a Vec<Reply>, at: usize) -> (r:
        Step<'a, ()>)
        ensures
            r.deep_view() == updated(items, replies@, at as int),
    {
        let expected: usize = items.len();
        if expected == 0 {
            return Step::Done(Ok(()), at);
        }
        let (document, at2) = match self.get_board_document(replies, at) {
            Step::Next(task) => {
                return Step::Next(task);
            },
            Step::Done(Err(error), used) => {
                return Step::Done(Err(error), used);
            },
            Step::Done(Ok(document), used) => (document, used),
        };
        match exchange(replies, at2, Command::UpdateItems { document, items }) {
            Step::Next(task) => Step::Next(task),
            Step::Done(Err(error), used) => Step::Done(Err(error), used),
            Step::Done(Ok(response), used) => match response {
                None => Step::Done(Err(payload_missing("UpdateItems")), used),
                Some(Response::Updated { status, results }) => Step::Done(
                    judge_update(status, results, expected),
                    used,
                ),
                Some(other) => Step::Done(Err(decode_failure(other)), used),
            },
        }
    }

    /// Deletes items of the board by their identifiers.
    pub fn delete_items<'a>(&self, ids: ItemIds<'a>, replies: &'a Vec<Reply>, at: usize) -> (r:
        Step<'a, ()>)
        ensures
            r.deep_view() == deleted(ids, replies@, at as int),
    {
        if ids.len() == 0 {
            return Step::Done(Ok(()), at);
        }
        let repeated = match ids {
            ItemIds::One(_) => false,
            ItemIds::Many(all) => has_duplicates(all),
        };
        if repeated {
            return Step::Done(
                Err(IpcError::say("delete request contains duplicate item identifiers")),
                at,
            );
        }
        let (document, at2) = match self.get_board_document(replies, at) {
            Step::Next(task) => {
                return Step::Next(task);
            },
            Step::Done(Err(error), used) => {
                return Step::Done(Err(error), used);
            },
            Step::Done(Ok(document), used) => (document, used),
        };
        match exchange(replies, at2, Command::DeleteItems { document, ids }) {
            Step::Next(task) => Step::Next(task),
            Step::Done(Err(error), used) => Step::Done(Err(error), used),
            Step::Done(Ok(response), used) => match response {
                None => Step::Done(Err(payload_missing("DeleteItems")), used),
                Some(Response::Deleted { status, results }) => Step::Done(
                    judge_deletion(status, results, &ids),
                    used,
                ),
                Some(other) => Step::Done(Err(decode_failure(other)), used),
            },
        }
    }
}

// What success stands for.

proof fn lemma_created_count(results: Seq<CreateResult>)
    ensures
        created_count(results) + rejections(results).len() == results.len(),
    decreases results.len(),
{
    if results.len() > 0 {
        lemma_created_count(results.drop_last());
    }
}

/// A creation is reported as done exactly where KiCad took the request and gave evidence for
/// as many items as were asked for. Each item of the answer is either counted as created or
/// named among the rejections.
pub proof fn creation_needs_evidence(
    status: RequestStatus,
    results: Seq<CreateResult>,
    expected: nat,
)
    ensures
        creation_verdict(status, results, expected) is Ok <==> status.ok && results.len() > 0
            && created_count(results) == expected,
        created_count(results) + rejections(results).len() == results.len(),
{
    lemma_created_count(results);
}

proof fn lemma_update_faults(results: Seq<UpdateResult>, i: int)
    requires
        0 <= i <= results.len(),
    ensures
        update_fault_from(results, i) is None <==> forall|j: int|
            i <= j < results.len() ==> update_fault(#[trigger] results[j]) is None,
    decreases results.len() - i,
{
    if i < results.len() {
        lemma_update_faults(results, i + 1);
        if update_fault_from(results, i) is None {
            assert forall|j: int| i <= j < results.len() implies update_fault(
                #[trigger] results[j],
            ) is None by {}
        } else if update_fault(results[i]) is None {
            assert(!(forall|j: int|
                i + 1 <= j < results.len() ==> update_fault(#[trigger] results[j]) is None));
        }
    }
}

/// An update is reported as done exactly where KiCad took the request and reported success
/// for each of the items.
pub proof fn update_needs_every_item(
    status: RequestStatus,
    results: Seq<UpdateResult>,
    expected: nat,
)
    ensures
        update_verdict(status, results, expected) is Ok <==> status.ok && results.len() == expected
            && forall|j: int|
            0 <= j < results.len() ==> ((#[trigger] results[j]).status matches Some(s)
                && s.code is IscOk),
{
    lemma_update_faults(results, 0);
    if status.ok && results.len() == expected {
        if update_fault_from(results, 0) is None {
            assert forall|j: int| 0 <= j < results.len() implies ((#[trigger] results[j]).status matches Some(s)
                && s.code is IscOk) by {
                assert(update_fault(results[j]) is None);
            }
        } else {
            let j = choose|j: int| 0 <= j < results.len() && update_fault(#[trigger] results[j]) is Some;
            assert(!(results[j].status matches Some(s) && s.code is IscOk));
        }
    }
}

proof fn lemma_deletion_faults(ids: Seq<Seq<char>>, results: Seq<DeleteResult>, i: int)
    requires
        0 <= i <= results.len(),
        deletion_fault_from(ids, results, i) is None,
    ensures
        forall|j: int|
            #![trigger results[j]]
            i <= j < results.len() ==> deletion_fault(ids, results, j) is None,
    decreases results.len() - i,
{
    if i < results.len() {
        lemma_deletion_faults(ids, results, i + 1);
    }
}

/// The identifier that a result names.
pub open spec fn reported_id(result: DeleteResult) -> Seq<char> {
    match result.id {
        Some(id) => id@,
        None => Seq::empty(),
    }
}

/// Whether each item that was asked for is reported as deleted, once, and no other is.
pub open spec fn all_reported(results: Seq<DeleteResult>, ids: Seq<Seq<char>>) -> bool {
    let reported = results.map_values(|r: DeleteResult| reported_id(r));
    &&& forall|j: int|
        0 <= j < results.len() ==> (#[trigger] results[j]).ok && results[j].id is Some
    &&& reported.no_duplicates()
    &&& reported.to_set() == ids.to_set()
}

proof fn lemma_done_is_reported(results: Seq<DeleteResult>, ids: Seq<Seq<char>>)
    requires
        ids.no_duplicates(),
        results.len() == ids.len(),
        deletion_fault_from(ids, results, 0) is None,
    ensures
        all_reported(results, ids),
{
    lemma_deletion_faults(ids, results, 0);
    let reported = results.map_values(|r: DeleteResult| reported_id(r));
    assert forall|j: int| 0 <= j < results.len() implies (#[trigger] results[j]).ok
        && results[j].id is Some by {
        assert(deletion_fault(ids, results, j) is None);
    }
    assert forall|a: int, b: int| 0 <= a < b < reported.len() implies reported[a]
        != reported[b] by {
        assert(deletion_fault(ids, results, a) is None);
        assert(deletion_fault(ids, results, b) is None);
        if reported[a] == reported[b] {
            assert(results[a].id.deep_view() == Some(reported[b]));
            assert(reported_before(results, b, reported[b]));
        }
    }
    assert(reported.no_duplicates());
    assert forall|id: Seq<char>| reported.to_set().contains(id) implies ids.to_set().contains(
        id,
    ) by {
        let j = choose|j: int| 0 <= j < reported.len() && reported[j] == id;
        assert(deletion_fault(ids, results, j) is None);
    }
    reported.unique_seq_to_set();
    ids.unique_seq_to_set();
    vstd::set_lib::lemma_subset_equality(reported.to_set(), ids.to_set());
}

proof fn lemma_reported_is_done(results: Seq<DeleteResult>, ids: Seq<Seq<char>>, i: int)
    requires
        all_reported(results, ids),
        0 <= i <= results.len(),
    ensures
        deletion_fault_from(ids, results, i) is None,
    decreases results.len() - i,
{
    if i < results.len() {
        lemma_reported_is_done(results, ids, i + 1);
        let reported = results.map_values(|r: DeleteResult| reported_id(r));
        let id = reported[i];
        assert(results[i].ok && results[i].id is Some);
        assert(reported.to_set().contains(id));
        assert(ids.to_set().contains(id));
        if reported_before(results, i, id) {
            let j = choose|j: int|
                0 <= j < i && j < results.len() && (#[trigger] results[j]).id.deep_view()
                    == Some(id);
            assert(reported[j] == id);
        }
    }
}

/// Where KiCad reports on the items of a deletion, the deletion is taken as done just where
/// the request went well and each item that was asked for is reported as deleted, once, and
/// no other is. Where KiCad reports on no item, the request alone decides.
pub proof fn reported_deletions_are_the_requested_ones(
    status: RequestStatus,
    results: Seq<DeleteResult>,
    ids: Seq<Seq<char>>,
)
    requires
        ids.no_duplicates(),
    ensures
        deletion_verdict(status, results, ids) is Ok <==> status.ok && (results.len() == 0
            || all_reported(results, ids)),
        all_reported(results, ids) ==> results.len() == ids.len(),
{
    let reported = results.map_values(|r: DeleteResult| reported_id(r));
    if all_reported(results, ids) {
        reported.unique_seq_to_set();
        ids.unique_seq_to_set();
        lemma_reported_is_done(results, ids, 0);
    }
    if results.len() == ids.len() && deletion_fault_from(ids, results, 0) is None {
        lemma_done_is_reported(results, ids);
    }
}

} // verus!
