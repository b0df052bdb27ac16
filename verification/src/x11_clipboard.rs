//! The X11 backend: selections, read and written through atoms.

use crate::common::{ClipboardError, ErrorView, Step, TargetMimeType, TargetView};
use crate::offer::{answer_of, lemma_offer_answers, offer_of};
use crate::text::decode_text;
use crate::wait::{Wait, WaitRequest};
use std::marker::PhantomData;
use std::time::Duration;
use vstd::prelude::*;
use vstd::utf8::{decode_utf8, encode_utf8, valid_utf8};

verus! {

/// The name of the atom for plain text.
pub const MIME_TEXT: &'static str = "UTF8_STRING";

/// The name of the atom for a list of files.
pub const MIME_URI: &'static str = "text/uri-list";

/// The name of the atom for a bitmap.
pub const MIME_BITMAP: &'static str = "image/png";

/// The milliseconds that reading the clipboard's text may take.
pub const TEXT_TIMEOUT_MILLIS: u64 = 1000;

/// The milliseconds that listing the targets may take.
pub const LIST_TIMEOUT_MILLIS: u64 = 100;

/// The number that the server uses for a name.
pub type Atom = u32;

/// The atom that stands for "no such name".
pub const NO_ATOM: Atom = 0;

/// The atoms that a connection learns when it is set up.
#[derive(Debug, Clone, Copy, PartialEq, Eq, Structural)]
pub struct Atoms {
    /// The primary selection.
    pub primary: Atom,
    /// The clipboard selection.
    pub clipboard: Atom,
    /// The property through which contents are handed over.
    pub property: Atom,
    /// Plain text.
    pub utf8_string: Atom,
}

/// One of the selections of a server.
pub trait Selection {
    /// The atom of the selection.
    spec fn selected(atoms: Atoms) -> Atom;

    /// The atom of the selection.
    fn atom(atoms: &Atoms) -> (r: Atom)
        ensures
            r == Self::selected(*atoms),
    ;
}

/// The primary selection: what is marked with the pointer.
#[derive(Debug, Clone, Copy)]
pub struct Primary;

impl Selection for Primary {
    open spec fn selected(atoms: Atoms) -> Atom {
        atoms.primary
    }

    fn atom(atoms: &Atoms) -> (r: Atom) {
        atoms.primary
    }
}

/// The clipboard selection: what was copied.
#[derive(Debug, Clone, Copy)]
pub struct Clipboard;

impl Selection for Clipboard {
    open spec fn selected(atoms: Atoms) -> Atom {
        atoms.clipboard
    }

    fn atom(atoms: &Atoms) -> (r: Atom) {
        atoms.clipboard
    }
}

/// How a request names a format: by an atom that is known, or by a name that
/// the server is asked to turn into an atom first.
#[derive(Debug, Clone)]
pub enum AtomSource {
    Known(Atom),
    Named(String),
}

/// The mathematical value of an [`AtomSource`].
pub enum FormatView {
    Known(Atom),
    Named(Seq<char>),
}

impl View for AtomSource {
    type V = FormatView;

    open spec fn view(&self) -> FormatView {
        match self {
            AtomSource::Known(atom) => FormatView::Known(*atom),
            AtomSource::Named(name) => FormatView::Named(name@),
        }
    }
}

/// The format that stands for a target: the text atom of the connection for
/// `Text`, one fixed name each for `Bitmap` and `Files`, and a specific
/// target's own string as a name.
pub open spec fn format_of(atoms: Atoms, target: TargetView) -> FormatView {
    match target {
        TargetView::Text => FormatView::Known(atoms.utf8_string),
        TargetView::Bitmap => FormatView::Named(MIME_BITMAP@),
        TargetView::Files => FormatView::Named(MIME_URI@),
        TargetView::Specific(s) => FormatView::Named(s),
    }
}

/// Why the server handed nothing back.
#[derive(Debug, Clone)]
pub enum X11Failure {
    /// The owner answered with another type than the one asked for.
    UnexpectedType(Atom),
    /// The connection failed, the request timed out, or the server refused.
    Other(String),
}

/// How long a request may take.
#[derive(Debug, Clone, Copy, PartialEq, Eq, Structural)]
pub enum Timeout {
    /// As long as the caller's poll duration.
    PollDuration,
    /// This many milliseconds.
    Millis(u64),
}

/// A request to turn a name into an atom. With `only_if_exists` the server
/// makes no new atom and answers [`NO_ATOM`] for a name it does not know.
#[derive(Debug, Clone)]
pub struct InternRequest {
    pub name: String,
    pub only_if_exists: bool,
}

/// A request to read `target` from `selection` through `property`.
#[derive(Debug, Clone, Copy, PartialEq, Eq, Structural)]
pub struct LoadRequest {
    pub selection: Atom,
    pub target: Atom,
    pub property: Atom,
    pub timeout: Timeout,
}

/// A request to own `selection` and offer `entries` on it together, in place
/// of what was offered before. Each format is an atom of the server.
#[derive(Debug, Clone)]
pub struct StoreRequest {
    pub selection: Atom,
    pub entries: Vec<(Atom, Vec<u8>)>,
}

/// A write on its way to the server. Before anything is stored, every format
/// that is a name is turned into an atom, one after the other and in order,
/// by a lookup that makes the atom where the server does not know the name.
/// A lookup that fails ends the write, and nothing is stored.
///
/// [`Storing::begin`] hands out the first lookup, or the request to store
/// where no name is to be looked up; [`Storing::after_intern`] takes the
/// answer to the lookup that was handed out last. The answer to the request
/// to store goes to [`crate::common::finish`].
#[derive(Debug)]
pub struct Storing {
    selection: Atom,
    resolved: Vec<(Atom, Vec<u8>)>,
    awaiting: Option<Vec<u8>>,
    rest: Vec<(AtomSource, Vec<u8>)>,
    over: bool,
}

/// The mathematical value of a [`Storing`].
pub struct StoringView {
    /// The selection to store on.
    pub selection: Atom,
    /// The entries whose atoms are known, in order.
    pub resolved: Seq<(Atom, Seq<u8>)>,
    /// The bytes of the entry whose name is being looked up, where one is.
    pub awaiting: Option<Seq<u8>>,
    /// The entries that follow, in order.
    pub rest: Seq<(FormatView, Seq<u8>)>,
    /// Whether the write has handed out its last turn.
    pub over: bool,
}

/// The mathematical value of a turn of a write.
pub enum StoreTurn {
    /// The server is to turn `name` into an atom.
    Intern { name: Seq<char>, only_if_exists: bool },
    /// The server is to store `entries` on `selection`.
    Store { selection: Atom, entries: Seq<(Atom, Seq<u8>)> },
    /// The write ends with this error, and nothing is stored.
    Failed(ErrorView),
}

/// A request to list the names of the targets of `selection`.
#[derive(Debug, Clone, Copy, PartialEq, Eq, Structural)]
pub struct ListRequest {
    pub selection: Atom,
    pub timeout: Timeout,
}

/// The first request of a read.
#[derive(Debug, Clone)]
pub enum ReadRequest {
    /// The target's name is to be turned into an atom; the answer goes to
    /// [`X11ClipboardContext::after_intern`].
    Intern(InternRequest),
    /// The target's atom is known; the answer goes to
    /// [`X11ClipboardContext::after_load`].
    Load(LoadRequest),
}

/// The formats and bytes of a list of entries.
pub open spec fn entries_view(entries: Seq<(AtomSource, Vec<u8>)>) -> Seq<(FormatView, Seq<u8>)> {
    Seq::new(entries.len(), |i: int| (entries[i].0@, entries[i].1@))
}

/// The entries that publish `targets`: each under the format of its target,
/// with its bytes unchanged, in the same order.
pub open spec fn entries_of(atoms: Atoms, targets: Seq<(TargetMimeType, Vec<u8>)>) -> Seq<
    (FormatView, Seq<u8>),
> {
    Seq::new(targets.len(), |i: int| (format_of(atoms, targets[i].0@), targets[i].1@))
}

/// The atoms and bytes of a list of entries whose atoms are known.
pub open spec fn resolved_view(entries: Seq<(Atom, Vec<u8>)>) -> Seq<(Atom, Seq<u8>)> {
    Seq::new(entries.len(), |i: int| (entries[i].0, entries[i].1@))
}

/// The value of a turn of a write.
pub open spec fn store_turn(step: Step<InternRequest, StoreRequest>) -> StoreTurn {
    match step {
        Step::Call(lookup) => StoreTurn::Intern {
            name: lookup.name@,
            only_if_exists: lookup.only_if_exists,
        },
        Step::Done(Ok(store)) => StoreTurn::Store {
            selection: store.selection,
            entries: resolved_view(store.entries@),
        },
        Step::Done(Err(e)) => StoreTurn::Failed(e@),
    }
}

/// The write of `entries` on `selection` before its first turn.
pub open spec fn begun(selection: Atom, entries: Seq<(FormatView, Seq<u8>)>) -> StoringView {
    StoringView { selection, resolved: Seq::empty(), awaiting: None, rest: entries, over: false }
}

/// A write that has handed out its last turn.
pub open spec fn finished(selection: Atom) -> StoringView {
    StoringView {
        selection,
        resolved: Seq::empty(),
        awaiting: None,
        rest: Seq::empty(),
        over: true,
    }
}

/// The message of the error with which a write answers when it is driven
/// out of turn.
pub open spec fn store_out_of_turn() -> Seq<char> {
    "the write was driven out of turn"@
}

/// The end of a write that was driven out of turn.
pub open spec fn store_misuse(selection: Atom) -> (StoringView, StoreTurn) {
    (finished(selection), StoreTurn::Failed(ErrorView::Protocol(store_out_of_turn())))
}

/// The next turn of a write that awaits no lookup. Entries whose atoms are
/// known join those that are resolved. The first entry that has a name makes
/// the write hand out the lookup of that name, exactly as it is written and
/// with leave to make a new atom. When no entry is left, the write hands out
/// the request to store all that is resolved.
pub open spec fn spec_lookups(storing: StoringView) -> (StoringView, StoreTurn)
    decreases storing.rest.len(),
{
    if storing.rest.len() == 0 {
        (
            finished(storing.selection),
            StoreTurn::Store { selection: storing.selection, entries: storing.resolved },
        )
    } else {
        match storing.rest[0].0 {
            FormatView::Known(atom) => spec_lookups(
                StoringView {
                    resolved: storing.resolved.push((atom, storing.rest[0].1)),
                    rest: storing.rest.drop_first(),
                    ..storing
                },
            ),
            FormatView::Named(name) => (
                StoringView {
                    awaiting: Some(storing.rest[0].1),
                    rest: storing.rest.drop_first(),
                    ..storing
                },
                StoreTurn::Intern { name, only_if_exists: false },
            ),
        }
    }
}

/// The first turn of a write.
pub open spec fn spec_store_begin(storing: StoringView) -> (StoringView, StoreTurn) {
    if storing.over || storing.awaiting is Some {
        store_misuse(storing.selection)
    } else {
        spec_lookups(storing)
    }
}

/// The turn of a write after the server answered the lookup that was handed
/// out last. An atom resolves the entry that awaited it, and the write goes
/// on as [`spec_lookups`] says. A failure ends the write with the failure as
/// a protocol error, before anything is stored.
pub open spec fn spec_after_intern(storing: StoringView, answer: Result<Atom, X11Failure>) -> (
    StoringView,
    StoreTurn,
) {
    if storing.over {
        store_misuse(storing.selection)
    } else {
        match (storing.awaiting, answer) {
            (Some(bytes), Ok(atom)) => spec_lookups(
                StoringView {
                    resolved: storing.resolved.push((atom, bytes)),
                    awaiting: None,
                    ..storing
                },
            ),
            (Some(_), Err(failure)) => (
                finished(storing.selection),
                StoreTurn::Failed(failure_view(failure)),
            ),
            (None, _) => store_misuse(storing.selection),
        }
    }
}

impl View for Storing {
    type V = StoringView;

    closed spec fn view(&self) -> StoringView {
        StoringView {
            selection: self.selection,
            resolved: resolved_view(self.resolved@),
            awaiting: match self.awaiting {
                Some(bytes) => Some(bytes@),
                None => None,
            },
            rest: entries_view(self.rest@),
            over: self.over,
        }
    }
}

impl Storing {
    fn done(selection: Atom) -> (r: Storing)
        ensures
            r@ == finished(selection),
    {
        let storing = Storing {
            selection,
            resolved: Vec::new(),
            awaiting: None,
            rest: Vec::new(),
            over: true,
        };
        assert(resolved_view(storing.resolved@) == Seq::<(Atom, Seq<u8>)>::empty());
        assert(entries_view(storing.rest@) == Seq::<(FormatView, Seq<u8>)>::empty());
        storing
    }

    fn refuse(selection: Atom) -> (r: (Storing, Step<InternRequest, StoreRequest>))
        ensures
            (r.0@, store_turn(r.1)) == store_misuse(selection),
    {
        let message = "the write was driven out of turn".to_owned();
        (Self::done(selection), Step::Done(Err(ClipboardError::Protocol(message))))
    }

    fn lookups(self) -> (r: (Storing, Step<InternRequest, StoreRequest>))
        requires
            !self@.over,
            self@.awaiting is None,
        ensures
            (r.0@, store_turn(r.1)) == spec_lookups(self@),
    {
        let ghost start = self@;
        let selection = self.selection;
        let mut resolved = self.resolved;
        let mut rest = self.rest;
        while rest.len() > 0
            invariant
                start == self@,
                spec_lookups(
                    StoringView {
                        selection,
                        resolved: resolved_view(resolved@),
                        awaiting: None,
                        rest: entries_view(rest@),
                        over: false,
                    },
                ) == spec_lookups(start),
            decreases rest.len(),
        {
            let ghost before = rest@;
            let ghost known = resolved@;
            let (format, data) = rest.remove(0);
            assert(entries_view(rest@) == entries_view(before).drop_first());
            assert(entries_view(before)[0] == (format@, data@));
            match format {
                AtomSource::Known(atom) => {
                    assert(resolved_view(known.push((atom, data))) == resolved_view(known).push(
                        (atom, data@),
                    ));
                    resolved.push((atom, data));
                },
                AtomSource::Named(name) => {
                    let next = Storing {
                        selection,
                        resolved,
                        awaiting: Some(data),
                        rest,
                        over: false,
                    };
                    let lookup = InternRequest { name, only_if_exists: false };
                    assert((next@, store_turn(Step::Call(lookup))) == spec_lookups(
                        StoringView {
                            selection,
                            resolved: resolved_view(known),
                            awaiting: None,
                            rest: entries_view(before),
                            over: false,
                        },
                    ));
                    return (next, Step::Call(lookup));
                },
            }
        }
        assert(entries_view(rest@).len() == 0);
        (Self::done(selection), Step::Done(Ok(StoreRequest { selection, entries: resolved })))
    }

    /// Hands out the first turn of the write: the lookup of the first name,
    /// or the request to store where no format is a name.
    pub fn begin(self) -> (r: (Storing, Step<InternRequest, StoreRequest>))
        ensures
            (r.0@, store_turn(r.1)) == spec_store_begin(self@),
    {
        if self.over || self.awaiting.is_some() {
            Self::refuse(self.selection)
        } else {
            self.lookups()
        }
    }

    /// Takes the server's answer to the lookup that was handed out last, and
    /// hands out the next turn: another lookup, the request to store, or the
    /// error that ends the write.
    pub fn after_intern(self, answer: Result<Atom, X11Failure>) -> (r: (
        Storing,
        Step<InternRequest, StoreRequest>,
    ))
        ensures
            (r.0@, store_turn(r.1)) == spec_after_intern(self@, answer),
    {
        if self.over {
            return Self::refuse(self.selection);
        }
        let selection = self.selection;
        match self.awaiting {
            Some(bytes) => match answer {
                Ok(atom) => {
                    let ghost known = self.resolved@;
                    let mut resolved = self.resolved;
                    assert(resolved_view(known.push((atom, bytes))) == resolved_view(known).push(
                        (atom, bytes@),
                    ));
                    resolved.push((atom, bytes));
                    let next = Storing {
                        selection,
                        resolved,
                        awaiting: None,
                        rest: self.rest,
                        over: false,
                    };
                    next.lookups()
                },
                Err(failure) => (Self::done(selection), Step::Done(Err(protocol_error(failure)))),
            },
            None => Self::refuse(selection),
        }
    }
}

/// What a read hands to its caller after the server answered a load: the
/// bytes that came; empty contents where the owner answered with another
/// type; the failure as a protocol error in every other case.
pub open spec fn load_outcome(answer: Result<Vec<u8>, X11Failure>) -> Result<Seq<u8>, ErrorView> {
    match answer {
        Ok(bytes) => Ok(bytes@),
        Err(X11Failure::UnexpectedType(_)) => Ok(Seq::empty()),
        Err(X11Failure::Other(message)) => Err(ErrorView::Protocol(message@)),
    }
}

/// A context for one selection of an X11 server. It keeps the atoms that the
/// connection learnt when it was set up.
#[derive(Debug)]
pub struct X11ClipboardContext<S: Selection = Clipboard> {
    atoms: Atoms,
    selection: PhantomData<S>,
}

impl<S: Selection> X11ClipboardContext<S> {
    /// The atoms of the connection.
    pub closed spec fn atoms(&self) -> Atoms {
        self.atoms
    }

    /// The atom of the selection that the context reads and writes.
    pub open spec fn selection(&self) -> Atom {
        S::selected(self.atoms())
    }

    /// The request that reads the atom `target` within `timeout`.
    pub open spec fn load_of(&self, target: Atom, timeout: Timeout) -> LoadRequest {
        LoadRequest { selection: self.selection(), target, property: self.atoms().property, timeout }
    }

    /// Tells whether `step` is the first step of a read of `target`. A
    /// format that is an atom is loaded at once, within the caller's poll
    /// duration, unless it is no atom at all, which ends the read with no
    /// bytes. A format that is a name is looked up first, exactly as it is
    /// written and without leave to make a new atom.
    pub open spec fn begins_read(&self, target: TargetView, step: Step<ReadRequest, Vec<u8>>) -> bool {
        match format_of(self.atoms(), target) {
            FormatView::Known(atom) => if atom == NO_ATOM {
                step matches Step::Done(Ok(bytes)) && bytes@.len() == 0
            } else {
                step matches Step::Call(ReadRequest::Load(load)) && load == self.load_of(
                    atom,
                    Timeout::PollDuration,
                )
            },
            FormatView::Named(name) => step matches Step::Call(ReadRequest::Intern(intern))
                && intern.name@ == name && intern.only_if_exists,
        }
    }

    /// Makes a context from the outcome of connecting to the server: the
    /// atoms of the connection, or why it failed.
    pub fn new(connection: Result<Atoms, String>) -> (r: Result<
        X11ClipboardContext<S>,
        ClipboardError,
    >)
        ensures
            connection matches Ok(atoms) ==> r matches Ok(c) && c.atoms() == atoms,
            connection matches Err(m) ==> r matches Err(e) && e@ == ErrorView::Construction(m@),
    {
        match connection {
            Ok(atoms) => Ok(X11ClipboardContext { atoms, selection: PhantomData }),
            Err(message) => Err(ClipboardError::Construction(message)),
        }
    }

    /// The lookup that a write makes for `format` before it stores: none for
    /// an atom, and for a name the lookup of that name, exactly as it is
    /// written, with leave to make a new atom. A read looks a name up
    /// without that leave; see [`Self::get_target_contents`].
    pub fn store_lookup(&self, format: &AtomSource) -> (r: Option<InternRequest>)
        ensures
            match format@ {
                FormatView::Known(_) => r is None,
                FormatView::Named(name) => r matches Some(lookup) && lookup.name@ == name
                    && !lookup.only_if_exists,
            },
    {
        match format {
            AtomSource::Known(_) => None,
            AtomSource::Named(name) => Some(
                InternRequest { name: name.clone(), only_if_exists: false },
            ),
        }
    }

    /// Resolves a target to the format that the server is asked for. A
    /// write turns the name of a format into an atom as [`Self::store_lookup`]
    /// says, a read as [`Self::get_target_contents`] says.
    pub fn get_target(&self, target: TargetMimeType) -> (r: AtomSource)
        ensures
            r@ == format_of(self.atoms(), target@),
    {
        match target {
            TargetMimeType::Text => AtomSource::Known(self.atoms.utf8_string),
            TargetMimeType::Bitmap => AtomSource::Named(MIME_BITMAP.to_owned()),
            TargetMimeType::Files => AtomSource::Named(MIME_URI.to_owned()),
            TargetMimeType::Specific(s) => AtomSource::Named(s),
        }
    }

    fn load(&self, target: Atom, timeout: Timeout) -> (r: LoadRequest)
        ensures
            r == self.load_of(target, timeout),
    {
        LoadRequest {
            selection: S::atom(&self.atoms),
            target,
            property: self.atoms.property,
            timeout,
        }
    }

    /// The request that reads the clipboard's text. The answer goes to
    /// [`Self::after_load`], and what comes of it to
    /// [`crate::text::text_of`].
    pub fn get_contents(&self) -> (r: LoadRequest)
        ensures
            r == self.load_of(self.atoms().utf8_string, Timeout::Millis(TEXT_TIMEOUT_MILLIS)),
    {
        self.load(self.atoms.utf8_string, Timeout::Millis(TEXT_TIMEOUT_MILLIS))
    }

    /// Begins reading `target`. Text has an atom of its own and is read at
    /// once, within the caller's poll duration. Any other target is a name
    /// that the server is asked about first, without making an atom for it.
    pub fn get_target_contents(&self, target: TargetMimeType) -> (r: Step<ReadRequest, Vec<u8>>)
        ensures
            self.begins_read(target@, r),
    {
        match self.get_target(target) {
            AtomSource::Known(atom) => match self.after_intern(Ok(atom)) {
                Step::Call(load) => Step::Call(ReadRequest::Load(load)),
                Step::Done(r) => Step::Done(r),
            },
            AtomSource::Named(name) => Step::Call(
                ReadRequest::Intern(InternRequest { name, only_if_exists: true }),
            ),
        }
    }

    /// Goes on with a read after the server was asked for the target's atom.
    /// A name that the server does not know is offered by nobody: the
    /// contents are empty and nothing is loaded. A known atom is loaded
    /// within the caller's poll duration. A failure ends the read.
    pub fn after_intern(&self, answer: Result<Atom, X11Failure>) -> (r: Step<LoadRequest, Vec<u8>>)
        ensures
            match answer {
                Ok(atom) => if atom == NO_ATOM {
                    r matches Step::Done(Ok(bytes)) && bytes@.len() == 0
                } else {
                    r matches Step::Call(load) && load == self.load_of(atom, Timeout::PollDuration)
                },
                Err(failure) => r matches Step::Done(Err(e)) && e@ == failure_view(failure),
            },
    {
        match answer {
            Ok(atom) => if atom == NO_ATOM {
                Step::Done(Ok(Vec::new()))
            } else {
                Step::Call(self.load(atom, Timeout::PollDuration))
            },
            Err(failure) => Step::Done(Err(protocol_error(failure))),
        }
    }

    /// Ends a read with what the server answered to the load.
    pub fn after_load(&self, answer: Result<Vec<u8>, X11Failure>) -> (r: Result<
        Vec<u8>,
        ClipboardError,
    >)
        ensures
            crate::wait::bytes_result(r) == load_outcome(answer),
    {
        match answer {
            Ok(bytes) => Ok(bytes),
            Err(X11Failure::UnexpectedType(_)) => Ok(Vec::new()),
            Err(X11Failure::Other(message)) => Err(ClipboardError::Protocol(message)),
        }
    }

    /// The write that publishes `data` as the clipboard's text. It is driven
    /// with [`Storing::begin`].
    pub fn set_contents(&self, data: String) -> (r: Storing)
        ensures
            r@ == begun(
                self.selection(),
                seq![(FormatView::Known(self.atoms().utf8_string), encode_utf8(data@))],
            ),
    {
        let bytes = crate::text::encode_text(data.as_str());
        self.set_target_contents(TargetMimeType::Text, bytes)
    }

    /// The write that publishes `data` under `target`. It is driven with
    /// [`Storing::begin`].
    pub fn set_target_contents(&self, target: TargetMimeType, data: Vec<u8>) -> (r: Storing)
        ensures
            r@ == begun(self.selection(), seq![(format_of(self.atoms(), target@), data@)]),
    {
        let ghost format = format_of(self.atoms(), target@);
        let ghost bytes = data@;
        let mut entries: Vec<(AtomSource, Vec<u8>)> = Vec::new();
        entries.push((self.get_target(target), data));
        assert(entries_view(entries@) == seq![(format, bytes)]);
        self.storing(entries)
    }

    /// The write that publishes all of `targets` as one offer. It is driven
    /// with [`Storing::begin`].
    pub fn set_multiple_targets(&self, targets: Vec<(TargetMimeType, Vec<u8>)>) -> (r: Storing)
        ensures
            r@ == begun(self.selection(), entries_of(self.atoms(), targets@)),
    {
        let ghost all = targets@;
        let mut entries: Vec<(AtomSource, Vec<u8>)> = Vec::new();
        for pair in it: targets.into_iter()
            invariant
                it.seq() == all,
                entries.len() == it.index(),
                forall|j: int|
                    0 <= j < entries.len() ==> (#[trigger] entries@[j]).0@ == format_of(
                        self.atoms(),
                        all[j].0@,
                    ) && entries@[j].1@ == all[j].1@,
        {
            let (target, data) = pair;
            entries.push((self.get_target(target), data));
        }
        assert(entries_view(entries@) == entries_of(self.atoms(), all));
        self.storing(entries)
    }

    fn storing(&self, entries: Vec<(AtomSource, Vec<u8>)>) -> (r: Storing)
        ensures
            r@ == begun(self.selection(), entries_view(entries@)),
    {
        let storing = Storing {
            selection: S::atom(&self.atoms),
            resolved: Vec::new(),
            awaiting: None,
            rest: entries,
            over: false,
        };
        assert(resolved_view(storing.resolved@) == Seq::<(Atom, Seq<u8>)>::empty());
        storing
    }

    /// The request that lists the targets of the selection. The answer goes
    /// to [`Self::after_list`].
    pub fn list_targets(&self) -> (r: ListRequest)
        ensures
            r == (ListRequest {
                selection: self.selection(),
                timeout: Timeout::Millis(LIST_TIMEOUT_MILLIS),
            }),
    {
        ListRequest { selection: S::atom(&self.atoms), timeout: Timeout::Millis(LIST_TIMEOUT_MILLIS) }
    }

    /// The targets that the server listed: each name as a specific target,
    /// in the order given. A name that is not UTF-8 is a decoding error, and
    /// a failure of the server a protocol error.
    pub fn after_list(&self, answer: Result<Vec<Vec<u8>>, X11Failure>) -> (r: Result<
        Vec<TargetMimeType>,
        ClipboardError,
    >)
        ensures
            match answer {
                Ok(names) => if forall|i: int|
                    0 <= i < names@.len() ==> valid_utf8(#[trigger] names@[i]@) {
                    r matches Ok(targets) && targets@.len() == names@.len() && forall|i: int|
                        0 <= i < names@.len() ==> (#[trigger] targets@[i])@
                            == TargetView::Specific(decode_utf8(names@[i]@))
                } else {
                    r matches Err(e) && e@ == ErrorView::Decoding
                },
                Err(failure) => r matches Err(e) && e@ == failure_view(failure),
            },
    {
        match answer {
            Ok(names) => {
                let ghost all = names@;
                let mut targets: Vec<TargetMimeType> = Vec::new();
                for name in it: names.into_iter()
                    invariant
                        answer matches Ok(given) && given@ == all,
                        it.seq() == all,
                        targets.len() == it.index(),
                        forall|j: int|
                            0 <= j < targets.len() ==> valid_utf8(#[trigger] all[j]@)
                                && targets@[j]@ == TargetView::Specific(decode_utf8(all[j]@)),
                {
                    let ghost bytes = name@;
                    assert(bytes == all[it.index() as int]@);
                    match decode_text(name) {
                        Ok(text) => {
                            targets.push(TargetMimeType::Specific(text));
                        },
                        Err(e) => {
                            assert(!valid_utf8(all[it.index() as int]@));
                            return Err(e);
                        },
                    }
                }
                Ok(targets)
            },
            Err(failure) => Err(protocol_error(failure)),
        }
    }

    /// The selection to give up. The answer goes to
    /// [`crate::common::finish`].
    pub fn clear(&self) -> (r: Atom)
        ensures
            r == self.selection(),
    {
        S::atom(&self.atoms)
    }

    /// Begins a wait for `target`, in which an attempt may take
    /// `poll_duration` and a pause lasts as long. The server lists the
    /// targets of a selection, so the wait starts with a snapshot of them.
    pub fn wait_for_target_contents(&self, target: TargetMimeType, poll_duration: Duration) -> (r:
        (Wait, WaitRequest))
        ensures
            (r.0@, r.1@) == crate::wait::spec_wait(true, target@, poll_duration),
    {
        Wait::start(true, target, poll_duration)
    }
}

/// The message that tells of an answer of another type than was asked for.
pub open spec fn unexpected_type() -> Seq<char> {
    "the owner of the selection answered with an unexpected type"@
}

/// The protocol error that stands for a failure of the server.
pub open spec fn failure_view(failure: X11Failure) -> ErrorView {
    match failure {
        X11Failure::UnexpectedType(_) => ErrorView::Protocol(unexpected_type()),
        X11Failure::Other(message) => ErrorView::Protocol(message@),
    }
}

/// Turns a failure of the server into the error that the caller gets.
pub fn protocol_error(failure: X11Failure) -> (r: ClipboardError)
    ensures
        r@ == failure_view(failure),
{
    match failure {
        X11Failure::UnexpectedType(_) => ClipboardError::Protocol(
            "the owner of the selection answered with an unexpected type".to_owned(),
        ),
        X11Failure::Other(message) => ClipboardError::Protocol(message),
    }
}

/// How many of `entries` have a name for their format.
pub open spec fn names_in(entries: Seq<(FormatView, Seq<u8>)>) -> nat
    decreases entries.len(),
{
    if entries.len() == 0 {
        0
    } else {
        let first: nat = if entries[0].0 is Named {
            1
        } else {
            0
        };
        first + names_in(entries.drop_first())
    }
}

/// `entries` with the atoms that the server answered for their names:
/// `atoms` holds one atom for each name, in the order of the names.
pub open spec fn resolve(entries: Seq<(FormatView, Seq<u8>)>, atoms: Seq<Atom>) -> Seq<
    (Atom, Seq<u8>),
>
    decreases entries.len(),
{
    if entries.len() == 0 {
        Seq::empty()
    } else {
        match entries[0].0 {
            FormatView::Known(atom) => seq![(atom, entries[0].1)] + resolve(
                entries.drop_first(),
                atoms,
            ),
            FormatView::Named(_) => seq![(atoms[0], entries[0].1)] + resolve(
                entries.drop_first(),
                atoms.drop_first(),
            ),
        }
    }
}

/// The turn to which a write comes from `turn` when the server answers its
/// lookups with `atoms`, one after the other.
pub open spec fn spec_answered(storing: StoringView, turn: StoreTurn, atoms: Seq<Atom>) -> StoreTurn
    decreases atoms.len(),
{
    if turn is Intern && atoms.len() > 0 {
        let next = spec_after_intern(storing, Ok(atoms[0]));
        spec_answered(next.0, next.1, atoms.drop_first())
    } else {
        turn
    }
}

/// A write whose lookups all succeed comes to one request to store: every
/// entry is in it, in order and with its bytes unchanged, under the atom that
/// was known for it or that the server answered for its name.
pub proof fn lemma_store_after_lookups(storing: StoringView, atoms: Seq<Atom>)
    requires
        !storing.over,
        storing.awaiting is None,
        names_in(storing.rest) == atoms.len(),
    ensures
        spec_answered(spec_lookups(storing).0, spec_lookups(storing).1, atoms) == (
        StoreTurn::Store {
            selection: storing.selection,
            entries: storing.resolved + resolve(storing.rest, atoms),
        }),
    decreases storing.rest.len(),
{
    if storing.rest.len() == 0 {
        assert(storing.resolved + resolve(storing.rest, atoms) == storing.resolved);
    } else {
        let first = storing.rest[0];
        let rest = storing.rest.drop_first();
        match first.0 {
            FormatView::Known(atom) => {
                let next = StoringView {
                    resolved: storing.resolved.push((atom, first.1)),
                    rest,
                    ..storing
                };
                lemma_store_after_lookups(next, atoms);
                assert(next.resolved + resolve(rest, atoms) == storing.resolved + resolve(
                    storing.rest,
                    atoms,
                ));
            },
            FormatView::Named(_) => {
                let waiting = StoringView { awaiting: Some(first.1), rest, ..storing };
                let next = StoringView {
                    resolved: storing.resolved.push((atoms[0], first.1)),
                    awaiting: None,
                    rest,
                    ..storing
                };
                assert(spec_lookups(storing).0 == waiting);
                assert(spec_after_intern(waiting, Ok(atoms[0])) == spec_lookups(next));
                lemma_store_after_lookups(next, atoms.drop_first());
                assert(next.resolved + resolve(rest, atoms.drop_first()) == storing.resolved
                    + resolve(storing.rest, atoms));
            },
        }
    }
}

/// A lookup that fails ends the write before anything is stored: the write
/// ends with the failure as a protocol error, and whatever it is handed
/// afterwards, it hands out no request to store.
pub proof fn lemma_failed_lookup_stores_nothing(
    storing: StoringView,
    failure: X11Failure,
    later: Result<Atom, X11Failure>,
)
    requires
        !storing.over,
        storing.awaiting is Some,
    ensures
        spec_after_intern(storing, Err(failure)).1 == StoreTurn::Failed(failure_view(failure)),
        spec_store_begin(spec_after_intern(storing, Err(failure)).0).1 is Failed,
        spec_after_intern(spec_after_intern(storing, Err(failure)).0, later).1 is Failed,
{
}

/// Round trip: what [`X11ClipboardContext::set_target_contents`] publishes
/// under a target is what a server that keeps its offers answers when it is
/// asked for the format of the same target, and
/// [`X11ClipboardContext::after_load`] hands those bytes on as they are.
pub proof fn lemma_round_trip(atoms: Atoms, target: TargetView, data: Vec<u8>)
    ensures
        answer_of(offer_of(seq![(format_of(atoms, target), data@)]), format_of(atoms, target))
            == Some(data@),
        load_outcome(Ok(data)) == Ok::<Seq<u8>, ErrorView>(data@),
{
    lemma_offer_answers(seq![(format_of(atoms, target), data@)], 0);
}

/// Absence is empty: an owner that answers with another type than the one
/// asked for does not offer the target, which is read as empty contents and
/// is no error.
pub proof fn lemma_absent_is_empty(answered: Atom)
    ensures
        load_outcome(Err(X11Failure::UnexpectedType(answered))) == Ok::<Seq<u8>, ErrorView>(
            Seq::empty(),
        ),
{
}

/// Multi-target publish: after [`X11ClipboardContext::set_multiple_targets`]
/// each target whose format no earlier target of the list shares is answered
/// with its own bytes.
pub proof fn lemma_multiple_round_trip(
    atoms: Atoms,
    targets: Seq<(TargetMimeType, Vec<u8>)>,
    i: int,
)
    requires
        0 <= i < targets.len(),
        forall|j: int|
            0 <= j < i ==> format_of(atoms, (#[trigger] targets[j]).0@) != format_of(
                atoms,
                targets[i].0@,
            ),
    ensures
        answer_of(offer_of(entries_of(atoms, targets)), format_of(atoms, targets[i].0@)) == Some(
            targets[i].1@,
        ),
{
    lemma_offer_answers(entries_of(atoms, targets), i);
}

} // verus!
