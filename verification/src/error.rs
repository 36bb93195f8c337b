//! Why an IPC operation failed, and whether the request ever reached KiCad.

use crate::text;
use vstd::prelude::*;
use vstd::string::*;

verus! {

/// Marks every failure where no request completed a round trip with a live KiCad: no socket
/// path was configured, or dialling or sending failed.
#[derive(Clone, Copy, Debug, PartialEq, Eq, Structural)]
pub struct TransportUnreachable;

pub open spec fn unreachable_text() -> Seq<char> {
    "KiCad IPC transport unreachable"@
}

impl TransportUnreachable {
    pub fn describe(&self) -> (r: String)
        ensures
            r@ == unreachable_text(),
    {
        "KiCad IPC transport unreachable".to_owned()
    }
}

/// One link of an error's chain.
#[derive(Debug)]
pub enum Cause {
    Unreachable(TransportUnreachable),
    Text(String),
}

pub enum CauseView {
    Unreachable,
    Text(Seq<char>),
}

impl CauseView {
    pub open spec fn text(self) -> Seq<char> {
        match self {
            CauseView::Unreachable => unreachable_text(),
            CauseView::Text(t) => t,
        }
    }
}

impl DeepView for Cause {
    type V = CauseView;

    open spec fn deep_view(&self) -> CauseView {
        match self {
            Cause::Unreachable(_) => CauseView::Unreachable,
            Cause::Text(t) => CauseView::Text(t@),
        }
    }
}

/// An error with what led to it: the outermost cause first.
#[derive(Debug)]
pub struct IpcError {
    pub causes: Vec<Cause>,
}

impl DeepView for IpcError {
    type V = Seq<CauseView>;

    open spec fn deep_view(&self) -> Seq<CauseView> {
        self.causes.deep_view()
    }
}

/// A chain of one text.
pub open spec fn plain(message: Seq<char>) -> Seq<CauseView> {
    seq![CauseView::Text(message)]
}

/// The chain of an error that happened before the request was delivered.
pub open spec fn undelivered(message: Seq<char>) -> Seq<CauseView> {
    seq![CauseView::Text(message), CauseView::Unreachable]
}

/// `chain` with `message` put in front of it.
pub open spec fn in_context(chain: Seq<CauseView>, message: Seq<char>) -> Seq<CauseView> {
    seq![CauseView::Text(message)] + chain
}

/// Whether the marker stands anywhere in the chain.
pub open spec fn is_marked(chain: Seq<CauseView>) -> bool {
    exists|i: int| 0 <= i < chain.len() && chain[i] == CauseView::Unreachable
}

/// The text of the outermost cause.
pub open spec fn headline(chain: Seq<CauseView>) -> Seq<char> {
    if chain.len() == 0 {
        Seq::empty()
    } else {
        chain[0].text()
    }
}

/// The texts of all causes, outermost first.
pub open spec fn full_text(chain: Seq<CauseView>) -> Seq<char> {
    text::joined(chain.map_values(|c: CauseView| c.text()), ": "@)
}

impl Cause {
    pub fn copy(&self) -> (r: Cause)
        ensures
            r == *self,
    {
        match self {
            Cause::Unreachable(_) => Cause::Unreachable(TransportUnreachable),
            Cause::Text(t) => Cause::Text(t.clone()),
        }
    }

    pub fn describe(&self) -> (r: String)
        ensures
            r@ == self.deep_view().text(),
    {
        match self {
            Cause::Unreachable(marker) => marker.describe(),
            Cause::Text(t) => t.clone(),
        }
    }
}

impl IpcError {
    /// An error that is one text.
    pub fn new(message: String) -> (r: IpcError)
        ensures
            r.deep_view() == plain(message@),
    {
        let mut causes: Vec<Cause> = Vec::new();
        causes.push(Cause::Text(message));
        let r = IpcError { causes };
        assert(r.deep_view() == plain(message@));
        r
    }

    /// As `new`, from a borrowed text.
    pub fn say(message: &str) -> (r: IpcError)
        ensures
            r.deep_view() == plain(message@),
    {
        IpcError::new(message.to_owned())
    }

    /// An error of a request that was not delivered.
    pub fn unreachable(message: String) -> (r: IpcError)
        ensures
            r.deep_view() == undelivered(message@),
    {
        let mut causes: Vec<Cause> = Vec::new();
        causes.push(Cause::Text(message));
        causes.push(Cause::Unreachable(TransportUnreachable));
        let r = IpcError { causes };
        assert(r.deep_view() == undelivered(message@));
        r
    }

    pub fn copy(&self) -> (r: IpcError)
        ensures
            r.deep_view() == self.deep_view(),
    {
        let mut causes: Vec<Cause> = Vec::new();
        let mut i: usize = 0;
        while i < self.causes.len()
            invariant
                i <= self.causes@.len(),
                causes@ == self.causes@.take(i as int),
            decreases self.causes@.len() - i,
        {
            causes.push(self.causes[i].copy());
            assert(self.causes@.take(i + 1) == self.causes@.take(i as int).push(
                self.causes@[i as int],
            ));
            i += 1;
        }
        let r = IpcError { causes };
        assert(self.causes@.take(self.causes@.len() as int) == self.causes@);
        assert(r.deep_view() == self.deep_view());
        r
    }

    /// The same error with a text put in front of what led to it.
    pub fn context(&self, message: &str) -> (r: IpcError)
        ensures
            r.deep_view() == in_context(self.deep_view(), message@),
    {
        let mut causes: Vec<Cause> = Vec::new();
        causes.push(Cause::Text(message.to_owned()));
        let mut rest = self.copy();
        causes.append(&mut rest.causes);
        let r = IpcError { causes };
        assert(r.deep_view() == in_context(self.deep_view(), message@));
        r
    }

    /// The outermost cause as text.
    pub fn describe(&self) -> (r: String)
        ensures
            r@ == headline(self.deep_view()),
    {
        if self.causes.len() == 0 {
            String::new()
        } else {
            self.causes[0].describe()
        }
    }

    /// All causes as text, outermost first.
    pub fn describe_fully(&self) -> (r: String)
        ensures
            r@ == full_text(self.deep_view()),
    {
        let mut parts: Vec<String> = Vec::new();
        let mut i: usize = 0;
        let ghost texts = self.deep_view().map_values(|c: CauseView| c.text());
        while i < self.causes.len()
            invariant
                i <= self.causes@.len(),
                texts == self.deep_view().map_values(|c: CauseView| c.text()),
                parts.deep_view() == texts.take(i as int),
            decreases self.causes@.len() - i,
        {
            let part = self.causes[i].describe();
            let ghost before = parts.deep_view();
            parts.push(part);
            assert(parts.deep_view() == before.push(part@));
            assert(texts.take(i + 1) == texts.take(i as int).push(texts[i as int]));
            i += 1;
        }
        assert(texts.take(self.causes@.len() as int) == texts);
        text::join(&parts, ": ")
    }

    /// Whether the marker stands anywhere in the chain.
    pub fn carries_marker(&self) -> (r: bool)
        ensures
            r == is_marked(self.deep_view()),
    {
        let mut i: usize = 0;
        while i < self.causes.len()
            invariant
                i <= self.causes@.len(),
                forall|j: int|
                    0 <= j < i ==> self.deep_view()[j] != CauseView::Unreachable,
            decreases self.causes@.len() - i,
        {
            match &self.causes[i] {
                Cause::Unreachable(_) => {
                    assert(self.deep_view()[i as int] == CauseView::Unreachable);
                    return true;
                },
                Cause::Text(_) => {},
            }
            i += 1;
        }
        false
    }
}

/// Why an IPC operation failed, for callers that decide whether editing the board file
/// directly is safe.
///
/// `Unreachable` means that the transport never delivered the request, so no live KiCad can be
/// holding the board. `Rejected` is everything else: KiCad is, or may be, alive on the other
/// end, and a file edit could be overwritten on its next save.
#[derive(Debug)]
pub enum IpcFailure {
    Unreachable(String),
    Rejected(String),
}

impl IpcFailure {
    /// What the failure says.
    pub open spec fn said(self) -> Seq<char> {
        match self {
            IpcFailure::Unreachable(m) => m@,
            IpcFailure::Rejected(m) => m@,
        }
    }

    /// Classifies an error by the marker in its chain, never by its text.
    pub fn from_error(error: IpcError) -> (r: IpcFailure)
        ensures
            r is Unreachable <==> is_marked(error.deep_view()),
            r.said() == full_text(error.deep_view()),
    {
        let message = error.describe_fully();
        if error.carries_marker() {
            IpcFailure::Unreachable(message)
        } else {
            IpcFailure::Rejected(message)
        }
    }

    pub fn message(&self) -> (r: &str)
        ensures
            r@ == self.said(),
    {
        match self {
            IpcFailure::Unreachable(message) => message.as_str(),
            IpcFailure::Rejected(message) => message.as_str(),
        }
    }
}

/// Putting a text in front of an error leaves its class as it was.
pub proof fn context_keeps_the_marker(chain: Seq<CauseView>, message: Seq<char>)
    ensures
        is_marked(in_context(chain, message)) == is_marked(chain),
{
    let whole = in_context(chain, message);
    if is_marked(chain) {
        let i = choose|i: int| 0 <= i < chain.len() && chain[i] == CauseView::Unreachable;
        assert(whole[i + 1] == CauseView::Unreachable);
    }
    if is_marked(whole) {
        let i = choose|i: int| 0 <= i < whole.len() && whole[i] == CauseView::Unreachable;
        assert(chain[i - 1] == CauseView::Unreachable);
    }
}

} // verus!
